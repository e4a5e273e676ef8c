//! Geometry of the screen and of the board, and the pace of the game.

use vstd::prelude::*;

verus! {

/// Columns of the frame buffer.
pub const SCREEN_WIDTH: usize = 80;

/// Rows of the frame buffer.
pub const SCREEN_HEIGHT: usize = 24;

/// Columns of the board the snake moves on.
pub const BOARD_WIDTH: usize = 80;

/// Rows of the board, the topmost of which is kept for the score line.
pub const BOARD_HEIGHT: usize = 24;

/// Milliseconds between two frames.
pub const TICK_MILLIS: u64 = 100;

} // verus!

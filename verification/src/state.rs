//! What a screen of the game reports after each tick.

use vstd::prelude::*;

verus! {

/// The outcome of one tick of a screen.
#[derive(Copy, Clone, Debug, PartialEq, Eq, Structural)]
pub enum StateResult {
    /// The screen goes on; its frame is to be shown.
    Continue,
    /// The screen is over; the next one takes its place.
    Complete,
    /// The player asked to leave the program.
    Exit,
}

} // verus!

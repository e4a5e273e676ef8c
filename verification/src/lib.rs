//! A snake game for character terminals: the play rules, the three screens of
//! the game and the frame buffer they draw into, with the terminal's input and
//! output modelled as plain values so that every rule can be stated and proved.

pub mod ansi;
pub mod consts;
pub mod game;
pub mod menu;
pub mod play;
pub mod random;
pub mod state;
pub mod term;
pub mod text;
pub mod types;

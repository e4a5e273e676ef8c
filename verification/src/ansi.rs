//! The control sequences the game sends to the terminal, as `termion` writes
//! them.

use vstd::prelude::*;
use crate::text::decimal;

verus! {

/// The two characters every control sequence starts with.
pub open spec fn csi() -> Seq<char> {
    seq!['\x1b', '[']
}

/// Moves the cursor to column `x`, row `y`, both counted from one.
pub open spec fn goto_text(x: nat, y: nat) -> Seq<char> {
    csi() + decimal(y) + seq![';'] + decimal(x) + seq!['H']
}

/// Hides the cursor.
pub open spec fn hide_text() -> Seq<char> {
    csi() + seq!['?', '2', '5', 'l']
}

/// Shows the cursor.
pub open spec fn show_text() -> Seq<char> {
    csi() + seq!['?', '2', '5', 'h']
}

/// Clears the whole screen.
pub open spec fn clear_text() -> Seq<char> {
    csi() + seq!['2', 'J']
}

/// Selects white as the colour of the characters.
pub open spec fn white_text() -> Seq<char> {
    csi() + seq!['3', '8', ';', '5', ';', '7', 'm']
}

/// Selects blue as the colour behind the characters.
pub open spec fn blue_text() -> Seq<char> {
    csi() + seq!['4', '8', ';', '5', ';', '4', 'm']
}

/// What may stand for the foreground colour in a frame: the sequence for
/// white, or nothing where colours are switched off.
pub open spec fn is_foreground(text: Seq<char>) -> bool {
    text == white_text() || text == Seq::<char>::empty()
}

/// What may stand for the background colour in a frame: the sequence for
/// blue, or nothing where colours are switched off.
pub open spec fn is_background(text: Seq<char>) -> bool {
    text == blue_text() || text == Seq::<char>::empty()
}

/// `termion::cursor::Goto(x, y)` as it is displayed: the introducer, the row
/// in decimal, a semicolon, the column in decimal and `H`. Its formatting
/// asserts that the position is not `(0, 0)`.
#[verifier::external_body]
pub(crate) fn goto_sequence(x: u16, y: u16) -> (text: String)
    requires
        x != 0 || y != 0,
    ensures
        text@ == goto_text(x as nat, y as nat),
{
    format!("{}", termion::cursor::Goto(x, y))
}

/// `termion::cursor::Hide` as it is displayed: a fixed sequence.
#[verifier::external_body]
pub(crate) fn hide_sequence() -> (text: String)
    ensures
        text@ == hide_text(),
{
    format!("{}", termion::cursor::Hide)
}

/// `termion::cursor::Show` as it is displayed: a fixed sequence.
#[verifier::external_body]
pub(crate) fn show_sequence() -> (text: String)
    ensures
        text@ == show_text(),
{
    format!("{}", termion::cursor::Show)
}

/// `termion::clear::All` as it is displayed: a fixed sequence.
#[verifier::external_body]
pub(crate) fn clear_sequence() -> (text: String)
    ensures
        text@ == clear_text(),
{
    format!("{}", termion::clear::All)
}

/// `termion::color::Fg(White)` as it is displayed. `termion` writes the
/// sequence for white, and writes nothing when the environment variable
/// `NO_COLOR` is set to a non-empty value; the claim covers both.
#[verifier::external_body]
pub(crate) fn white_sequence() -> (text: String)
    ensures
        is_foreground(text@),
{
    format!("{}", termion::color::Fg(termion::color::White))
}

/// `termion::color::Bg(Blue)` as it is displayed. `termion` writes the
/// sequence for blue, and writes nothing when the environment variable
/// `NO_COLOR` is set to a non-empty value; the claim covers both.
#[verifier::external_body]
pub(crate) fn blue_sequence() -> (text: String)
    ensures
        is_background(text@),
{
    format!("{}", termion::color::Bg(termion::color::Blue))
}

} // verus!

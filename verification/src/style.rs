//! The colours that the state machine hands to whatever paints it.

use vstd::prelude::*;

verus! {

/// A terminal colour: the sixteen named ones, the terminal's default, an
/// entry of the 256-colour table, or red, green and blue parts.
#[derive(Debug, Clone, Copy, PartialEq, Eq, Hash, Structural)]
pub enum Color {
    Reset,
    Black,
    Red,
    Green,
    Yellow,
    Blue,
    Magenta,
    Cyan,
    Gray,
    DarkGray,
    LightRed,
    LightGreen,
    LightYellow,
    LightBlue,
    LightMagenta,
    LightCyan,
    White,
    Rgb(u8, u8, u8),
    Indexed(u8),
}

} // verus!

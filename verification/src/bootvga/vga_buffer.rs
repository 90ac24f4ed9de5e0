//! The sixteen colours of the text screen.

use vstd::prelude::*;

verus! {

/// A colour of the text screen, in the order of the hardware's codes 0 to
/// 15.
#[derive(Debug, Clone, Copy, PartialEq, Eq, Structural)]
pub enum Color {
    Black,
    Blue,
    Green,
    Cyan,
    Red,
    Magenta,
    Brown,
    LightGray,
    DarkGray,
    LightBlue,
    LightGreen,
    LightCyan,
    LightRed,
    Pink,
    Yellow,
    White,
}

} // verus!

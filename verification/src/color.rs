//! Named colours of entities and log messages.

use vstd::prelude::*;

verus! {

/// A colour of the palette. Presentation code turns it into red, green and
/// blue through [`Color::rgb`].
#[derive(Clone, Copy, Debug, PartialEq, Eq, Structural)]
pub enum Color {
    Black,
    White,
    LightGrey,
    Red,
    LightRed,
    DarkRed,
    DarkerRed,
    Orange,
    DarkerOrange,
    Yellow,
    LightYellow,
    Green,
    LightGreen,
    DarkerGreen,
    DesaturatedGreen,
    LightCyan,
    Sky,
    LightBlue,
    Violet,
    LightViolet,
}

impl Color {
    /// Red, green and blue components of the colour.
    pub open spec fn components(self) -> (u8, u8, u8) {
        match self {
            Color::Black => (0, 0, 0),
            Color::White => (255, 255, 255),
            Color::LightGrey => (159, 159, 159),
            Color::Red => (255, 0, 0),
            Color::LightRed => (255, 63, 63),
            Color::DarkRed => (191, 0, 0),
            Color::DarkerRed => (127, 0, 0),
            Color::Orange => (255, 127, 0),
            Color::DarkerOrange => (127, 63, 0),
            Color::Yellow => (255, 255, 0),
            Color::LightYellow => (255, 255, 63),
            Color::Green => (0, 255, 0),
            Color::LightGreen => (63, 255, 63),
            Color::DarkerGreen => (0, 127, 0),
            Color::DesaturatedGreen => (63, 127, 63),
            Color::LightCyan => (63, 255, 255),
            Color::Sky => (0, 191, 255),
            Color::LightBlue => (63, 63, 255),
            Color::Violet => (127, 0, 255),
            Color::LightViolet => (159, 63, 255),
        }
    }

    /// Red, green and blue components of the colour.
    pub fn rgb(self) -> (c: (u8, u8, u8))
        ensures
            c == self.components(),
    {
        match self {
            Color::Black => (0, 0, 0),
            Color::White => (255, 255, 255),
            Color::LightGrey => (159, 159, 159),
            Color::Red => (255, 0, 0),
            Color::LightRed => (255, 63, 63),
            Color::DarkRed => (191, 0, 0),
            Color::DarkerRed => (127, 0, 0),
            Color::Orange => (255, 127, 0),
            Color::DarkerOrange => (127, 63, 0),
            Color::Yellow => (255, 255, 0),
            Color::LightYellow => (255, 255, 63),
            Color::Green => (0, 255, 0),
            Color::LightGreen => (63, 255, 63),
            Color::DarkerGreen => (0, 127, 0),
            Color::DesaturatedGreen => (63, 127, 63),
            Color::LightCyan => (63, 255, 255),
            Color::Sky => (0, 191, 255),
            Color::LightBlue => (63, 63, 255),
            Color::Violet => (127, 0, 255),
            Color::LightViolet => (159, 63, 255),
        }
    }
}

} // verus!

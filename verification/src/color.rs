//! The palette used for entities, messages and tiles.

use vstd::prelude::*;

verus! {

/// A named colour of the palette.
#[derive(Clone, Copy, Debug, PartialEq, Eq, Structural)]
pub enum Color {
    Black,
    White,
    LightGrey,
    Red,
    LightRed,
    DarkRed,
    DarkerRed,
    Orange,
    DarkerOrange,
    Yellow,
    LightYellow,
    Green,
    LightGreen,
    DarkerGreen,
    DesaturatedGreen,
    LightCyan,
    Sky,
    LightBlue,
    Violet,
    LightViolet,
    DarkWall,
    LightWall,
    DarkGround,
    LightGround,
}

impl Color {
    /// The red, green and blue components of the colour.
    pub open spec fn spec_rgb(self) -> (u8, u8, u8) {
        match self {
            Color::Black => (0, 0, 0),
            Color::White => (255, 255, 255),
            Color::LightGrey => (159, 159, 159),
            Color::Red => (255, 0, 0),
            Color::LightRed => (255, 63, 63),
            Color::DarkRed => (191, 0, 0),
            Color::DarkerRed => (127, 0, 0),
            Color::Orange => (255, 127, 0),
            Color::DarkerOrange => (127, 63, 0),
            Color::Yellow => (255, 255, 0),
            Color::LightYellow => (255, 255, 63),
            Color::Green => (0, 255, 0),
            Color::LightGreen => (63, 255, 63),
            Color::DarkerGreen => (0, 127, 0),
            Color::DesaturatedGreen => (63, 127, 63),
            Color::LightCyan => (63, 255, 255),
            Color::Sky => (0, 191, 255),
            Color::LightBlue => (63, 63, 255),
            Color::Violet => (127, 0, 255),
            Color::LightViolet => (159, 63, 255),
            Color::DarkWall => (0, 0, 100),
            Color::LightWall => (130, 110, 50),
            Color::DarkGround => (50, 50, 150),
            Color::LightGround => (200, 180, 50),
        }
    }

    /// The red, green and blue components of the colour.
    #[verifier::when_used_as_spec(spec_rgb)]
    pub fn rgb(self) -> (c: (u8, u8, u8))
        ensures
            c == self.spec_rgb(),
    {
        match self {
            Color::Black => (0, 0, 0),
            Color::White => (255, 255, 255),
            Color::LightGrey => (159, 159, 159),
            Color::Red => (255, 0, 0),
            Color::LightRed => (255, 63, 63),
            Color::DarkRed => (191, 0, 0),
            Color::DarkerRed => (127, 0, 0),
            Color::Orange => (255, 127, 0),
            Color::DarkerOrange => (127, 63, 0),
            Color::Yellow => (255, 255, 0),
            Color::LightYellow => (255, 255, 63),
            Color::Green => (0, 255, 0),
            Color::LightGreen => (63, 255, 63),
            Color::DarkerGreen => (0, 127, 0),
            Color::DesaturatedGreen => (63, 127, 63),
            Color::LightCyan => (63, 255, 255),
            Color::Sky => (0, 191, 255),
            Color::LightBlue => (63, 63, 255),
            Color::Violet => (127, 0, 255),
            Color::LightViolet => (159, 63, 255),
            Color::DarkWall => (0, 0, 100),
            Color::LightWall => (130, 110, 50),
            Color::DarkGround => (50, 50, 150),
            Color::LightGround => (200, 180, 50),
        }
    }
}

} // verus!

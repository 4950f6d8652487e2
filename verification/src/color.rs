//! Colours, as they are handed through to whatever draws the game.

use vstd::prelude::*;

verus! {

/// A display colour as red, green and blue intensities.
///
/// The simulation never acts on colours; it hands them through to whatever
/// draws the map, the units and the message log.
#[derive(Debug, Copy, Clone, PartialEq, Eq, Structural)]
pub struct Color {
    pub r: u8,
    pub g: u8,
    pub b: u8,
}

impl Color {
    pub fn new(r: u8, g: u8, b: u8) -> (c: Color)
        ensures
            c == (Color { r, g, b }),
    {
        Color { r, g, b }
    }

    pub open spec fn spec_black() -> Color {
        Color { r: 0, g: 0, b: 0 }
    }

    #[verifier::when_used_as_spec(spec_black)]
    pub fn black() -> (c: Color)
        ensures
            c == Color::spec_black(),
    {
        Color { r: 0, g: 0, b: 0 }
    }

    pub open spec fn spec_white() -> Color {
        Color { r: 255, g: 255, b: 255 }
    }

    #[verifier::when_used_as_spec(spec_white)]
    pub fn white() -> (c: Color)
        ensures
            c == Color::spec_white(),
    {
        Color { r: 255, g: 255, b: 255 }
    }

    pub open spec fn spec_red() -> Color {
        Color { r: 255, g: 0, b: 0 }
    }

    #[verifier::when_used_as_spec(spec_red)]
    pub fn red() -> (c: Color)
        ensures
            c == Color::spec_red(),
    {
        Color { r: 255, g: 0, b: 0 }
    }

    pub open spec fn spec_light_red() -> Color {
        Color { r: 255, g: 63, b: 63 }
    }

    #[verifier::when_used_as_spec(spec_light_red)]
    pub fn light_red() -> (c: Color)
        ensures
            c == Color::spec_light_red(),
    {
        Color { r: 255, g: 63, b: 63 }
    }

    pub open spec fn spec_dark_red() -> Color {
        Color { r: 191, g: 0, b: 0 }
    }

    #[verifier::when_used_as_spec(spec_dark_red)]
    pub fn dark_red() -> (c: Color)
        ensures
            c == Color::spec_dark_red(),
    {
        Color { r: 191, g: 0, b: 0 }
    }

    pub open spec fn spec_darker_red() -> Color {
        Color { r: 127, g: 0, b: 0 }
    }

    #[verifier::when_used_as_spec(spec_darker_red)]
    pub fn darker_red() -> (c: Color)
        ensures
            c == Color::spec_darker_red(),
    {
        Color { r: 127, g: 0, b: 0 }
    }

    pub open spec fn spec_yellow() -> Color {
        Color { r: 255, g: 255, b: 0 }
    }

    #[verifier::when_used_as_spec(spec_yellow)]
    pub fn yellow() -> (c: Color)
        ensures
            c == Color::spec_yellow(),
    {
        Color { r: 255, g: 255, b: 0 }
    }
}

} // verus!

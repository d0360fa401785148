//! Colours with eight bits per channel.

use vstd::prelude::*;

verus! {

/// An RGBA colour. Each channel runs from 0 to 255; an alpha of 255 is opaque.
#[derive(Clone, Copy, Debug, PartialEq, Eq, Structural)]
pub struct Color {
    pub r: u8,
    pub g: u8,
    pub b: u8,
    pub a: u8,
}

impl Color {
    pub open spec fn spec_opaque(r: u8, g: u8, b: u8) -> Color {
        Color { r, g, b, a: 255 }
    }

    /// A fully opaque colour.
    #[verifier::when_used_as_spec(spec_opaque)]
    pub fn opaque(r: u8, g: u8, b: u8) -> (c: Color)
        ensures
            c == Self::spec_opaque(r, g, b),
    {
        Color { r, g, b, a: 255 }
    }

    pub open spec fn spec_with_alpha(self, a: u8) -> Color {
        Color { r: self.r, g: self.g, b: self.b, a }
    }

    /// The same colour with another alpha channel.
    #[verifier::when_used_as_spec(spec_with_alpha)]
    pub fn with_alpha(self, a: u8) -> (c: Color)
        ensures
            c == self.spec_with_alpha(a),
    {
        Color { r: self.r, g: self.g, b: self.b, a }
    }

    pub open spec fn spec_white() -> Color {
        Self::spec_opaque(255, 255, 255)
    }

    #[verifier::when_used_as_spec(spec_white)]
    pub fn white() -> (c: Color)
        ensures
            c == Self::spec_white(),
    {
        Color::opaque(255, 255, 255)
    }

    pub open spec fn spec_black() -> Color {
        Self::spec_opaque(0, 0, 0)
    }

    #[verifier::when_used_as_spec(spec_black)]
    pub fn black() -> (c: Color)
        ensures
            c == Self::spec_black(),
    {
        Color::opaque(0, 0, 0)
    }

    pub open spec fn spec_red() -> Color {
        Self::spec_opaque(255, 0, 0)
    }

    #[verifier::when_used_as_spec(spec_red)]
    pub fn red() -> (c: Color)
        ensures
            c == Self::spec_red(),
    {
        Color::opaque(255, 0, 0)
    }

    pub open spec fn spec_blue() -> Color {
        Self::spec_opaque(0, 0, 255)
    }

    #[verifier::when_used_as_spec(spec_blue)]
    pub fn blue() -> (c: Color)
        ensures
            c == Self::spec_blue(),
    {
        Color::opaque(0, 0, 255)
    }

    pub open spec fn spec_purple() -> Color {
        Self::spec_opaque(255, 0, 255)
    }

    #[verifier::when_used_as_spec(spec_purple)]
    pub fn purple() -> (c: Color)
        ensures
            c == Self::spec_purple(),
    {
        Color::opaque(255, 0, 255)
    }
}

} // verus!

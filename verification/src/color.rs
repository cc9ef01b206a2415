//! RGBA colors and the palette used by the renderer.

use vstd::prelude::*;

verus! {

/// An 8-bit-per-channel RGBA color.
#[derive(Clone, Copy, Debug, PartialEq, Eq, Structural)]
pub struct Color {
    pub r: u8,
    pub g: u8,
    pub b: u8,
    pub a: u8,
}

impl Color {
    pub fn new(r: u8, g: u8, b: u8, a: u8) -> (c: Color)
        ensures
            c == (Color { r, g, b, a }),
    {
        Color { r, g, b, a }
    }

    pub open spec fn spec_white() -> Color {
        Color { r: 255, g: 255, b: 255, a: 255 }
    }

    /// Opaque white.
    #[verifier::when_used_as_spec(spec_white)]
    pub fn white() -> (c: Color)
        ensures
            c == Color::spec_white(),
    {
        Color { r: 255, g: 255, b: 255, a: 255 }
    }

    pub open spec fn spec_black() -> Color {
        Color { r: 0, g: 0, b: 0, a: 255 }
    }

    /// Opaque black.
    #[verifier::when_used_as_spec(spec_black)]
    pub fn black() -> (c: Color)
        ensures
            c == Color::spec_black(),
    {
        Color { r: 0, g: 0, b: 0, a: 255 }
    }

    pub open spec fn spec_red() -> Color {
        Color { r: 255, g: 0, b: 0, a: 255 }
    }

    /// The palette red.
    #[verifier::when_used_as_spec(spec_red)]
    pub fn red() -> (c: Color)
        ensures
            c == Color::spec_red(),
    {
        Color { r: 255, g: 0, b: 0, a: 255 }
    }

    pub open spec fn spec_green() -> Color {
        Color { r: 0, g: 128, b: 0, a: 255 }
    }

    /// The palette green.
    #[verifier::when_used_as_spec(spec_green)]
    pub fn green() -> (c: Color)
        ensures
            c == Color::spec_green(),
    {
        Color { r: 0, g: 128, b: 0, a: 255 }
    }

    pub open spec fn spec_blue() -> Color {
        Color { r: 0, g: 0, b: 255, a: 255 }
    }

    /// The palette blue.
    #[verifier::when_used_as_spec(spec_blue)]
    pub fn blue() -> (c: Color)
        ensures
            c == Color::spec_blue(),
    {
        Color { r: 0, g: 0, b: 255, a: 255 }
    }

    pub open spec fn spec_yellow() -> Color {
        Color { r: 255, g: 255, b: 0, a: 255 }
    }

    /// The palette yellow.
    #[verifier::when_used_as_spec(spec_yellow)]
    pub fn yellow() -> (c: Color)
        ensures
            c == Color::spec_yellow(),
    {
        Color { r: 255, g: 255, b: 0, a: 255 }
    }

    pub open spec fn spec_gold() -> Color {
        Color { r: 255, g: 215, b: 0, a: 255 }
    }

    /// The palette gold.
    #[verifier::when_used_as_spec(spec_gold)]
    pub fn gold() -> (c: Color)
        ensures
            c == Color::spec_gold(),
    {
        Color { r: 255, g: 215, b: 0, a: 255 }
    }

    pub open spec fn spec_gray() -> Color {
        Color { r: 128, g: 128, b: 128, a: 255 }
    }

    /// The palette gray.
    #[verifier::when_used_as_spec(spec_gray)]
    pub fn gray() -> (c: Color)
        ensures
            c == Color::spec_gray(),
    {
        Color { r: 128, g: 128, b: 128, a: 255 }
    }

    pub open spec fn spec_light_gray() -> Color {
        Color { r: 211, g: 211, b: 211, a: 255 }
    }

    /// The palette light gray.
    #[verifier::when_used_as_spec(spec_light_gray)]
    pub fn light_gray() -> (c: Color)
        ensures
            c == Color::spec_light_gray(),
    {
        Color { r: 211, g: 211, b: 211, a: 255 }
    }

    pub open spec fn spec_dark_gray() -> Color {
        Color { r: 169, g: 169, b: 169, a: 255 }
    }

    /// The palette dark gray.
    #[verifier::when_used_as_spec(spec_dark_gray)]
    pub fn dark_gray() -> (c: Color)
        ensures
            c == Color::spec_dark_gray(),
    {
        Color { r: 169, g: 169, b: 169, a: 255 }
    }

    pub open spec fn spec_white_smoke() -> Color {
        Color { r: 245, g: 245, b: 245, a: 255 }
    }

    /// The off-white used for ray traces.
    #[verifier::when_used_as_spec(spec_white_smoke)]
    pub fn white_smoke() -> (c: Color)
        ensures
            c == Color::spec_white_smoke(),
    {
        Color { r: 245, g: 245, b: 245, a: 255 }
    }

    pub open spec fn spec_transparent() -> Color {
        Color { r: 0, g: 0, b: 0, a: 0 }
    }

    /// The reserved texel value that sprites treat as "nothing here".
    #[verifier::when_used_as_spec(spec_transparent)]
    pub fn transparent() -> (c: Color)
        ensures
            c == Color::spec_transparent(),
    {
        Color { r: 0, g: 0, b: 0, a: 0 }
    }
}

} // verus!

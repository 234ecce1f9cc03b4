//! Colours as four 8-bit channels.

use vstd::prelude::*;

verus! {

/// A colour with red, green, blue and alpha channels, each in `0..=255`;
/// channel value `c` stands for the intensity `c / 255`.
#[derive(Debug, Clone, Copy, PartialEq, Eq)]
pub struct Rgba8 {
    pub r: u8,
    pub g: u8,
    pub b: u8,
    pub a: u8,
}

/// Builds an [`Rgba8`] from its four channels.
pub fn rgba8(r: u8, g: u8, b: u8, a: u8) -> (c: Rgba8)
    ensures
        c == (Rgba8 { r, g, b, a }),
{
    Rgba8 { r, g, b, a }
}

} // verus!

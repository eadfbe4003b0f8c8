//! Dominant-colour classification for album covers.
//!
//! A cover's representative colour is classified light or dark by its
//! luminance, `0.2126 R + 0.7152 G + 0.0722 B`. The comparison is carried
//! out over the same weights scaled by 10000, which keeps the arithmetic
//! exact: a luminance of exactly 180 is not light, anything above is.

use vstd::prelude::*;

verus! {

/// One RGB colour extracted from a cover image.
#[derive(Clone, Copy, Debug, PartialEq, Eq, Structural)]
pub struct Color {
    pub r: u8,
    pub g: u8,
    pub b: u8,
}

/// Luminance of `c`, scaled by 10000 so that it stays an integer.
pub open spec fn spec_luminance_e4(c: Color) -> int {
    2126 * (c.r as int) + 7152 * (c.g as int) + 722 * (c.b as int)
}

/// Whether `c` counts as a light colour: luminance strictly above 180.
pub open spec fn spec_is_light(c: Color) -> bool {
    spec_luminance_e4(c) > 180 * 10000
}

impl Color {
    /// Classify the colour as light when its luminance exceeds 180.
    pub fn is_light_color(&self) -> (r: bool)
        ensures
            r == spec_is_light(*self),
    {
        let luminance: u64 = 2126 * (self.r as u64) + 7152 * (self.g as u64) + 722 * (self.b as u64);
        luminance > 1800000
    }
}

} // verus!

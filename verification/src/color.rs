//! Colors of three channels.

use vstd::prelude::*;

verus! {

/// A color: red, green and blue.
#[derive(Clone, Copy, PartialEq, Eq, Structural, Debug)]
pub struct Color {
    pub r: u8,
    pub g: u8,
    pub b: u8,
}

impl Color {
    /// The color at half the brightness: every channel halved, rounded down.
    pub open spec fn dimmed(self) -> Color {
        Color { r: self.r / 2, g: self.g / 2, b: self.b / 2 }
    }

    /// Whether this is the color that stands for "nothing here" in a sprite:
    /// pure black.
    pub open spec fn is_key(self) -> bool {
        self.r == 0 && self.g == 0 && self.b == 0
    }

    /// The color at half the brightness.
    pub fn darken(self) -> (c: Color)
        ensures
            c == self.dimmed(),
    {
        Color { r: self.r / 2, g: self.g / 2, b: self.b / 2 }
    }

    /// Whether this color is the transparent one.
    pub fn is_transparent(self) -> (t: bool)
        ensures
            t == self.is_key(),
    {
        self.r == 0 && self.g == 0 && self.b == 0
    }
}

} // verus!

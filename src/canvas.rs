//! The size of the canvas that a fractal is drawn on.

use vstd::prelude::*;

verus! {

/// Width and height of the canvas, in pixels.
#[derive(Clone, Copy, Debug, PartialEq, Eq, Structural)]
pub struct Dimensions {
    pub width: u32,
    pub height: u32,
}

impl Dimensions {
    /// Number of pixels on the canvas.
    pub open spec fn pixel_count(self) -> nat {
        (self.width * self.height) as nat
    }

    /// The canvas has at least two pixels along each axis, so that the first and
    /// the last pixel of an axis can be placed on the two ends of its range.
    pub open spec fn is_drawable(self) -> bool {
        self.width >= 2 && self.height >= 2
    }
}

/// Builds the dimensions of a canvas from its width and height.
pub fn gen_struct_dimensions(width: u32, height: u32) -> (d: Dimensions)
    ensures
        d.width == width,
        d.height == height,
{
    Dimensions { width, height }
}

} // verus!

//! Integer geometry shared by the tasks.

use vstd::prelude::*;

verus! {

/// A position, in pixels.
#[derive(Clone, Copy, Debug, PartialEq, Eq, Structural)]
pub struct Point2D {
    pub x: usize,
    pub y: usize,
}

/// An extent, in pixels.
#[derive(Clone, Copy, Debug, PartialEq, Eq, Structural)]
pub struct Size2D {
    pub width: usize,
    pub height: usize,
}

/// An axis-aligned rectangle.
#[derive(Clone, Copy, Debug, PartialEq, Eq, Structural)]
pub struct Rect {
    pub origin: Point2D,
    pub size: Size2D,
}

impl Rect {
    /// Whether the pixel `(px, py)` lies inside the rectangle.
    pub open spec fn covers(self, px: int, py: int) -> bool {
        &&& self.origin.x <= px < self.origin.x + self.size.width
        &&& self.origin.y <= py < self.origin.y + self.size.height
    }
}

} // verus!

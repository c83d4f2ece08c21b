//! Rectangles in cell units.

use vstd::prelude::*;

verus! {

/// A rectangle of terminal cells: origin `(x, y)` and size `(width, height)`.
#[derive(Clone, Copy, PartialEq, Eq, Structural, Debug)]
pub struct Rect {
    pub x: u16,
    pub y: u16,
    pub width: u16,
    pub height: u16,
}

impl Rect {
    /// A rectangle is well formed when its far edges still fit in `u16`,
    /// so edge arithmetic cannot overflow.
    pub open spec fn wf(self) -> bool {
        self.x + self.width <= u16::MAX && self.y + self.height <= u16::MAX
    }

    /// The column one past the right edge.
    pub open spec fn spec_right(self) -> int {
        self.x + self.width
    }

    /// The row one past the bottom edge.
    pub open spec fn spec_bottom(self) -> int {
        self.y + self.height
    }

    /// Whether cell `(x, y)` lies inside this rectangle.
    pub open spec fn spec_contains(self, x: int, y: int) -> bool {
        &&& self.x <= x < self.x + self.width
        &&& self.y <= y < self.y + self.height
    }

    pub fn new(x: u16, y: u16, width: u16, height: u16) -> (r: Rect)
        requires
            x + width <= u16::MAX,
            y + height <= u16::MAX,
        ensures
            r == (Rect { x, y, width, height }),
            r.wf(),
    {
        Rect { x, y, width, height }
    }

    pub fn right(&self) -> (r: u16)
        requires
            self.wf(),
        ensures
            r == self.spec_right(),
    {
        self.x + self.width
    }

    pub fn bottom(&self) -> (r: u16)
        requires
            self.wf(),
        ensures
            r == self.spec_bottom(),
    {
        self.y + self.height
    }

    pub fn contains(&self, x: u16, y: u16) -> (r: bool)
        requires
            self.wf(),
        ensures
            r == self.spec_contains(x as int, y as int),
    {
        self.x <= x && x < self.x + self.width && self.y <= y && y < self.y + self.height
    }
}

} // verus!

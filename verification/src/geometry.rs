//! Pixel rectangles.

use vstd::prelude::*;

verus! {

/// A rectangle in pixel coordinates. `right` and `bottom` are exclusive.
#[derive(Clone, Copy, Debug, PartialEq, Eq, Structural)]
pub struct Rectangle {
    pub left: u32,
    pub top: u32,
    pub right: u32,
    pub bottom: u32,
}

impl Rectangle {
    /// The edges are ordered: `left <= right` and `top <= bottom`.
    pub open spec fn wf(self) -> bool {
        self.left <= self.right && self.top <= self.bottom
    }

    /// The rectangle is well formed and lies inside an image of the given size.
    pub open spec fn within(self, width: int, height: int) -> bool {
        self.wf() && self.right <= width && self.bottom <= height
    }

    /// The pixel `(x, y)` lies inside the rectangle.
    pub open spec fn contains(self, x: int, y: int) -> bool {
        self.left <= x < self.right && self.top <= y < self.bottom
    }

    /// Every pixel of `inner` lies inside this rectangle, edge by edge.
    pub open spec fn encloses(self, inner: Rectangle) -> bool {
        self.left <= inner.left && inner.right <= self.right && self.top <= inner.top
            && inner.bottom <= self.bottom
    }

    /// The rectangle that covers a whole image of the given size.
    pub open spec fn spec_full(width: u32, height: u32) -> Rectangle {
        Rectangle { left: 0, top: 0, right: width, bottom: height }
    }

    /// Number of pixel columns.
    pub open spec fn spec_width(self) -> u32 {
        (self.right - self.left) as u32
    }

    /// Number of pixel rows.
    pub open spec fn spec_height(self) -> u32 {
        (self.bottom - self.top) as u32
    }

    /// The rectangle that covers a whole image of the given size.
    #[verifier::when_used_as_spec(spec_full)]
    pub fn full(width: u32, height: u32) -> (r: Rectangle)
        ensures
            r == Rectangle::spec_full(width, height),
    {
        Rectangle { left: 0, top: 0, right: width, bottom: height }
    }

    /// Number of pixel columns.
    #[verifier::when_used_as_spec(spec_width)]
    pub fn width(self) -> (w: u32)
        requires
            self.wf(),
        ensures
            w == self.right - self.left,
            w == self.spec_width(),
    {
        self.right - self.left
    }

    /// Number of pixel rows.
    #[verifier::when_used_as_spec(spec_height)]
    pub fn height(self) -> (h: u32)
        requires
            self.wf(),
        ensures
            h == self.bottom - self.top,
            h == self.spec_height(),
    {
        self.bottom - self.top
    }
}

} // verus!

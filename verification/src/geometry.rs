//! Points and rectangles in bitmap pixel space.

use vstd::prelude::*;

verus! {

/// A pixel position: `x` counts columns from the left, `y` rows from the top.
#[derive(Clone, Copy, Debug, PartialEq, Eq, Hash, Structural)]
pub struct PixelPoint {
    pub x: usize,
    pub y: usize,
}

/// An axis-aligned pixel rectangle, `min` inclusive and `max` exclusive.
#[derive(Clone, Copy, Debug, PartialEq, Eq, Hash, Structural)]
pub struct PixelRect {
    pub min: PixelPoint,
    pub max: PixelPoint,
}

impl PixelRect {
    /// Columns covered.
    pub open spec fn spec_width(self) -> int {
        self.max.x - self.min.x
    }

    /// Rows covered.
    pub open spec fn spec_height(self) -> int {
        self.max.y - self.min.y
    }

    /// Whether the pixel in column `x`, row `y` lies inside.
    pub open spec fn covers(self, x: int, y: int) -> bool {
        self.min.x <= x < self.max.x && self.min.y <= y < self.max.y
    }

    /// Whether the two rectangles share a pixel.
    pub open spec fn overlaps(self, other: PixelRect) -> bool {
        exists|x: int, y: int| self.covers(x, y) && other.covers(x, y)
    }

    /// The degenerate rectangle at the origin, which covers no pixel.
    pub fn empty() -> (rect: PixelRect)
        ensures
            rect == (PixelRect { min: PixelPoint { x: 0, y: 0 }, max: PixelPoint { x: 0, y: 0 } }),
            forall|x: int, y: int| !rect.covers(x, y),
    {
        PixelRect { min: PixelPoint { x: 0, y: 0 }, max: PixelPoint { x: 0, y: 0 } }
    }

    /// Columns covered; zero where `max` lies left of `min`.
    pub fn width(&self) -> (w: usize)
        ensures
            w == if self.max.x >= self.min.x { self.spec_width() } else { 0 },
    {
        if self.max.x >= self.min.x { self.max.x - self.min.x } else { 0 }
    }

    /// Rows covered; zero where `max` lies above `min`.
    pub fn height(&self) -> (h: usize)
        ensures
            h == if self.max.y >= self.min.y { self.spec_height() } else { 0 },
    {
        if self.max.y >= self.min.y { self.max.y - self.min.y } else { 0 }
    }
}

/// Two rectangles of which one ends left of where the other begins, or
/// above it, share no pixel.
pub proof fn lemma_apart(a: PixelRect, b: PixelRect)
    requires
        a.max.x <= b.min.x || a.max.y <= b.min.y,
    ensures
        !a.overlaps(b),
        !b.overlaps(a),
{
}

} // verus!

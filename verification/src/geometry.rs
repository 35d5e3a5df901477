//! Window-space geometry used by the hit-testing and bounding-box queries.
//!
//! Coordinates are whole window-space units. The protocol only needs point
//! containment and rectangle construction, so integer coordinates keep the
//! layout oracle exact.

use vstd::prelude::*;

verus! {

/// A point in window coordinates.
#[derive(Clone, Copy, PartialEq, Eq, Structural, Debug)]
pub struct Point {
    pub x: i64,
    pub y: i64,
}

impl Point {
    pub fn new(x: i64, y: i64) -> (p: Point)
        ensures
            p.x == x && p.y == y,
    {
        Point { x, y }
    }
}

/// An axis-aligned rectangle in window coordinates, `x0 <= x1`, `y0 <= y1`.
#[derive(Clone, Copy, PartialEq, Eq, Structural, Debug)]
pub struct Rect {
    pub x0: i64,
    pub y0: i64,
    pub x1: i64,
    pub y1: i64,
}

impl Rect {
    /// Containment is half-open: the right and bottom edges are outside.
    pub open spec fn spec_contains(self, p: Point) -> bool {
        self.x0 <= p.x < self.x1 && self.y0 <= p.y < self.y1
    }

    pub fn new(x0: i64, y0: i64, x1: i64, y1: i64) -> (r: Rect)
        ensures
            r == (Rect { x0, y0, x1, y1 }),
    {
        Rect { x0, y0, x1, y1 }
    }

    pub fn contains(&self, p: Point) -> (r: bool)
        ensures
            r == self.spec_contains(p),
    {
        self.x0 <= p.x && p.x < self.x1 && self.y0 <= p.y && p.y < self.y1
    }

    pub fn width(&self) -> (w: i64)
        requires
            0 <= self.x1 - self.x0 <= i64::MAX,
        ensures
            w == self.x1 - self.x0,
    {
        self.x1 - self.x0
    }

    pub fn height(&self) -> (h: i64)
        requires
            0 <= self.y1 - self.y0 <= i64::MAX,
        ensures
            h == self.y1 - self.y0,
    {
        self.y1 - self.y0
    }
}

/// Result of mapping a window-space point to a document position: the nearest
/// document index (in UTF-8 code units) and whether the point fell inside the
/// rendered text bounds.
#[derive(Clone, Copy, PartialEq, Eq, Structural, Debug)]
pub struct HitTestPoint {
    pub idx: usize,
    pub is_inside: bool,
}

} // verus!

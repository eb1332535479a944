//! Axis-aligned rectangles used as dungeon rooms.

use vstd::prelude::*;

verus! {

/// An axis-aligned rectangle with corners `(x1, y1)` and `(x2, y2)`.
#[derive(Clone, Copy, Debug, PartialEq, Eq, Structural)]
pub struct Rect {
    pub x1: i32,
    pub x2: i32,
    pub y1: i32,
    pub y2: i32,
}

/// Integer division by two that rounds toward zero.
pub open spec fn half_toward_zero(n: int) -> int {
    if n >= 0 {
        n / 2
    } else {
        -((-n) / 2)
    }
}

/// Whether the closed intervals `[a1, a2]` and `[b1, b2]` share a point.
pub open spec fn intervals_touch(a1: int, a2: int, b1: int, b2: int) -> bool {
    a1 <= b2 && a2 >= b1
}

impl Rect {
    /// A room is well formed when it has positive extent on both axes.
    pub open spec fn wf(&self) -> bool {
        self.x1 < self.x2 && self.y1 < self.y2
    }

    /// The centre of the rectangle, as a pair of mathematical integers.
    pub open spec fn spec_center(&self) -> (int, int) {
        (half_toward_zero(self.x1 + self.x2), half_toward_zero(self.y1 + self.y2))
    }

    /// The inclusive overlap test: touching rectangles count as intersecting.
    pub open spec fn spec_intersects(&self, other: &Rect) -> bool {
        intervals_touch(self.x1 as int, self.x2 as int, other.x1 as int, other.x2 as int)
            && intervals_touch(self.y1 as int, self.y2 as int, other.y1 as int, other.y2 as int)
    }

    /// Whether `(x, y)` lies strictly inside the rectangle's boundary.
    pub open spec fn interior(&self, x: int, y: int) -> bool {
        self.x1 < x < self.x2 && self.y1 < y < self.y2
    }

    /// Builds the rectangle with top-left corner `(x, y)`, width `w` and height `h`.
    pub fn new(x: i32, y: i32, w: i32, h: i32) -> (r: Self)
        requires
            i32::MIN <= x + w <= i32::MAX,
            i32::MIN <= y + h <= i32::MAX,
        ensures
            r.x1 == x,
            r.y1 == y,
            r.x2 == x + w,
            r.y2 == y + h,
            r.wf() <==> (w > 0 && h > 0),
    {
        Rect { x1: x, y1: y, x2: x + w, y2: y + h }
    }

    /// The centre of the rectangle.
    pub fn center(&self) -> (c: (i32, i32))
        ensures
            (c.0 as int, c.1 as int) == self.spec_center(),
    {
        let sx: i64 = self.x1 as i64 + self.x2 as i64;
        let sy: i64 = self.y1 as i64 + self.y2 as i64;
        let center_x: i64 = sx / 2;
        let center_y: i64 = sy / 2;
        (center_x as i32, center_y as i32)
    }

    /// Returns true if this rectangle intersects with another one.
    pub fn intersects_with(&self, other: &Rect) -> (b: bool)
        ensures
            b == self.spec_intersects(other),
    {
        (self.x1 <= other.x2) && (self.x2 >= other.x1) && (self.y1 <= other.y2) && (self.y2
            >= other.y1)
    }
}

} // verus!

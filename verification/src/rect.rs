//! Rectangles: the bounds of rooms.

use vstd::prelude::*;
use rltk::RandomNumberGenerator;
use crate::rng::draw_range;
use crate::util::Coord;

verus! {

/// Half of `n`, rounded toward zero, as machine division rounds.
pub open spec fn half_toward_zero(n: int) -> int {
    if n >= 0 {
        n / 2
    } else {
        -((-n) / 2)
    }
}

/// An axis-aligned rectangle with corners `(x1, y1)` and `(x2, y2)`.
#[derive(Clone, Copy, Debug)]
pub struct Rect {
    pub x1: i32,
    pub y1: i32,
    pub x2: i32,
    pub y2: i32,
}

impl Rect {
    /// The low corner lies strictly below the high corner on both axes.
    pub open spec fn wf(&self) -> bool {
        self.x1 < self.x2 && self.y1 < self.y2
    }

    /// The center: the mean of the corners on each axis, rounded toward zero.
    pub open spec fn center_spec(&self) -> (int, int) {
        (half_toward_zero(self.x1 + self.x2), half_toward_zero(self.y1 + self.y2))
    }

    /// Overlap with both boundaries counted in: rectangles that share an
    /// edge or a corner intersect.
    pub open spec fn intersects_spec(&self, other: &Rect) -> bool {
        self.x1 <= other.x2 && self.x2 >= other.x1 && self.y1 <= other.y2 && self.y2 >= other.y1
    }

    /// `(x, y)` lies in the half-open box `[x1, x2) x [y1, y2)`, the part of
    /// a room that is carved to floor.
    pub open spec fn covers(&self, x: int, y: int) -> bool {
        self.x1 <= x < self.x2 && self.y1 <= y < self.y2
    }

    /// `(x, y)` lies strictly inside the rectangle, off every boundary.
    pub open spec fn strictly_inside(&self, x: int, y: int) -> bool {
        self.x1 < x < self.x2 && self.y1 < y < self.y2
    }

    /// The rectangle with low corner `(x, y)`, width `w` and height `h`.
    pub fn new(x: i32, y: i32, w: i32, h: i32) -> (r: Rect)
        requires
            w > 0,
            h > 0,
            x + w <= i32::MAX,
            y + h <= i32::MAX,
        ensures
            r.x1 == x,
            r.y1 == y,
            r.x2 == x + w,
            r.y2 == y + h,
            r.wf(),
    {
        Rect { x1: x, y1: y, x2: x + w, y2: y + h }
    }

    /// Returns the center of the rectangle.
    pub fn center(&self) -> (c: (i32, i32))
        ensures
            (c.0 as int, c.1 as int) == self.center_spec(),
    {
        let center_x = (self.x1 as i64 + self.x2 as i64) / 2;
        let center_y = (self.y1 as i64 + self.y2 as i64) / 2;
        (center_x as i32, center_y as i32)
    }

    /// Whether the rectangle collides with another. Rectangles that only
    /// touch collide too.
    pub fn intersects_with(&self, other: &Rect) -> (b: bool)
        ensures
            b == self.intersects_spec(other),
    {
        (self.x1 <= other.x2) && (self.x2 >= other.x1) && (self.y1 <= other.y2) && (self.y2
            >= other.y1)
    }

    /// A random point strictly inside the rectangle. One draw is made for
    /// `x`, then one for `y`; which point comes back is up to the generator.
    pub fn rand_point(&self, random: &mut RandomNumberGenerator) -> (p: Coord)
        requires
            self.x1 + 1 < self.x2,
            self.y1 + 1 < self.y2,
        ensures
            self.strictly_inside(p.x as int, p.y as int),
    {
        let x = draw_range(random, self.x1 + 1, self.x2);
        let y = draw_range(random, self.y1 + 1, self.y2);
        Coord { x, y }
    }
}

/// A rectangle intersects itself, and intersection does not depend on the
/// order of the two rectangles.
pub proof fn lemma_intersects_symmetric(a: Rect, b: Rect)
    ensures
        a.intersects_spec(&b) == b.intersects_spec(&a),
        a.wf() ==> a.intersects_spec(&a),
{
}

/// Where no coordinate is negative, the center rounds toward the low corner
/// and so lies in the carved box of the rectangle.
pub proof fn lemma_center_covered(r: Rect)
    requires
        r.wf(),
        0 <= r.x1,
        0 <= r.y1,
    ensures
        r.covers(r.center_spec().0, r.center_spec().1),
{
}

} // verus!

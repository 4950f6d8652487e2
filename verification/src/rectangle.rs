//! Rectangles of the tile grid.

use vstd::prelude::*;
use rand::ThreadRng;

use crate::point::Point;
use crate::random::gen_range;

verus! {

/// Half of `n`, rounded towards zero.
pub open spec fn half(n: int) -> int {
    if n >= 0 {
        n / 2
    } else {
        -((-n) / 2)
    }
}

/// Where the interval `lo..=hi` ends up when it is pushed into `min..=max`.
///
/// The interval keeps its length. It is first moved right until `lo` is at
/// least `min`, then moved left until `hi` is at most `max`; so an interval
/// that is too long for the bounds ends flush with `max`.
pub open spec fn clamp_axis(lo: int, hi: int, min: int, max: int) -> (int, int) {
    let shift = if lo < min {
        min - lo
    } else {
        0
    };
    let back = if hi + shift > max {
        max - (hi + shift)
    } else {
        0
    };
    (lo + shift + back, hi + shift + back)
}

/// Every value that arises while `clamp_axis` is computed step by step fits
/// in 16 bits.
pub open spec fn clamp_axis_fits(lo: int, hi: int, min: int, max: int) -> bool {
    let shift = if lo < min {
        min - lo
    } else {
        0
    };
    &&& shift <= i16::MAX
    &&& hi + shift <= i16::MAX
    &&& hi + shift > max ==> {
        &&& i16::MIN <= max - (hi + shift)
        &&& i16::MIN <= clamp_axis(lo, hi, min, max).0
    }
}

/// An axis-aligned rectangle on the tile grid, given by two opposite corners.
///
/// A room occupies the rectangle; its walls are the outermost ring of tiles
/// and its floor is everything strictly inside.
#[derive(Debug, Copy, Clone, PartialEq, Eq, Hash, Structural)]
pub struct Rectangle {
    pub top_left: Point,
    pub bottom_right: Point,
}

impl Rectangle {
    pub fn new(top_left: Point, size: (u8, u8)) -> (r: Rectangle)
        requires
            top_left.x + size.0 <= i16::MAX,
            top_left.y + size.1 <= i16::MAX,
        ensures
            r.top_left == top_left,
            r.bottom_right.x == top_left.x + size.0,
            r.bottom_right.y == top_left.y + size.1,
    {
        let (width, height) = size;
        Rectangle {
            top_left,
            bottom_right: Point { x: top_left.x + width as i16, y: top_left.y + height as i16 },
        }
    }

    pub open spec fn spec_centre(&self) -> Point {
        Point {
            x: half(self.top_left.x + self.bottom_right.x) as i16,
            y: half(self.top_left.y + self.bottom_right.y) as i16,
        }
    }

    /// The midpoint of the two corners, each coordinate rounded towards zero.
    #[verifier::when_used_as_spec(spec_centre)]
    pub fn centre(&self) -> (c: Point)
        requires
            i16::MIN <= self.top_left.x + self.bottom_right.x <= i16::MAX,
            i16::MIN <= self.top_left.y + self.bottom_right.y <= i16::MAX,
        ensures
            c == self.spec_centre(),
            c.x == half(self.top_left.x + self.bottom_right.x),
            c.y == half(self.top_left.y + self.bottom_right.y),
    {
        Point {
            x: (self.top_left.x + self.bottom_right.x) / 2,
            y: (self.top_left.y + self.bottom_right.y) / 2,
        }
    }
}


impl Rectangle {
    /// The width and height spanned by the corners.
    pub open spec fn extent(&self) -> (int, int) {
        (self.bottom_right.x - self.top_left.x, self.bottom_right.y - self.top_left.y)
    }

    /// `p` lies on the rectangle, border included.
    pub open spec fn contains(&self, p: Point) -> bool {
        &&& self.top_left.x <= p.x <= self.bottom_right.x
        &&& self.top_left.y <= p.y <= self.bottom_right.y
    }

    /// `p` lies strictly inside the rectangle: on the floor of the room.
    pub open spec fn contains_inner(&self, p: Point) -> bool {
        &&& self.top_left.x < p.x < self.bottom_right.x
        &&& self.top_left.y < p.y < self.bottom_right.y
    }

    /// The two rectangles share a coordinate range on both axes.
    pub open spec fn intersects(&self, other: &Rectangle) -> bool {
        &&& self.top_left.x <= other.bottom_right.x
        &&& self.bottom_right.x >= other.top_left.x
        &&& self.top_left.y <= other.bottom_right.y
        &&& self.bottom_right.y >= other.top_left.y
    }

    pub fn is_intersecting(&self, other: &Rectangle) -> (b: bool)
        ensures
            b == self.intersects(other),
    {
        self.top_left.x <= other.bottom_right.x && self.bottom_right.x >= other.top_left.x
            && self.top_left.y <= other.bottom_right.y && self.bottom_right.y
            >= other.top_left.y
    }

    /// A tile strictly inside the rectangle, drawn at random.
    ///
    /// Whatever the random source yields, the tile lies inside.
    pub fn get_random_position(&self, rng: &mut ThreadRng) -> (p: Point)
        requires
            self.top_left.x + 1 < self.bottom_right.x,
            self.top_left.y + 1 < self.bottom_right.y,
        ensures
            self.contains_inner(p),
    {
        let x = gen_range(rng, self.top_left.x as i64 + 1, self.bottom_right.x as i64) as i16;
        let y = gen_range(rng, self.top_left.y as i64 + 1, self.bottom_right.y as i64) as i16;
        Point { x, y }
    }

    /// The rectangle that `clamp_to` leaves behind.
    pub open spec fn clamped(&self, min: (i16, i16), max: (i16, i16)) -> Rectangle {
        let xs = clamp_axis(
            self.top_left.x as int,
            self.bottom_right.x as int,
            min.0 as int,
            max.0 as int,
        );
        let ys = clamp_axis(
            self.top_left.y as int,
            self.bottom_right.y as int,
            min.1 as int,
            max.1 as int,
        );
        Rectangle {
            top_left: Point { x: xs.0 as i16, y: ys.0 as i16 },
            bottom_right: Point { x: xs.1 as i16, y: ys.1 as i16 },
        }
    }

    /// Slides the rectangle, without resizing it, into the bounds
    /// `min.0..=max.0` by `min.1..=max.1`.
    pub fn clamp_to(&mut self, min: (i16, i16), max: (i16, i16))
        requires
            clamp_axis_fits(
                old(self).top_left.x as int,
                old(self).bottom_right.x as int,
                min.0 as int,
                max.0 as int,
            ),
            clamp_axis_fits(
                old(self).top_left.y as int,
                old(self).bottom_right.y as int,
                min.1 as int,
                max.1 as int,
            ),
        ensures
            *final(self) == old(self).clamped(min, max),
            final(self).extent() == old(self).extent(),
    {
        let (left, top) = min;
        let (right, bottom) = max;
        if self.top_left.x < left {
            let diff: i16 = left - self.top_left.x;
            self.top_left.x += diff;
            self.bottom_right.x += diff;
        }
        if self.top_left.y < top {
            let diff: i16 = top - self.top_left.y;
            self.top_left.y += diff;
            self.bottom_right.y += diff;
        }
        if self.bottom_right.x > right {
            let diff: i16 = right - self.bottom_right.x;
            self.top_left.x += diff;
            self.bottom_right.x += diff;
        }
        if self.bottom_right.y > bottom {
            let diff: i16 = bottom - self.bottom_right.y;
            self.top_left.y += diff;
            self.bottom_right.y += diff;
        }
    }
}

/// A rectangle that is no larger than the bounds lies within them once
/// clamped.
pub proof fn lemma_clamped_within(r: Rectangle, min: (i16, i16), max: (i16, i16))
    requires
        r.top_left.x <= r.bottom_right.x,
        r.top_left.y <= r.bottom_right.y,
        r.extent().0 <= max.0 - min.0,
        r.extent().1 <= max.1 - min.1,
    ensures
        min.0 <= r.clamped(min, max).top_left.x,
        r.clamped(min, max).bottom_right.x <= max.0,
        min.1 <= r.clamped(min, max).top_left.y,
        r.clamped(min, max).bottom_right.y <= max.1,
        r.clamped(min, max).extent() == r.extent(),
{
}

/// Clamping a rectangle that already lies within the bounds, or clamping a
/// second time, changes nothing.
pub proof fn lemma_clamp_idempotent(r: Rectangle, min: (i16, i16), max: (i16, i16))
    requires
        r.top_left.x <= r.bottom_right.x,
        r.top_left.y <= r.bottom_right.y,
        r.extent().0 <= max.0 - min.0,
        r.extent().1 <= max.1 - min.1,
    ensures
        r.clamped(min, max).clamped(min, max) == r.clamped(min, max),
        (min.0 <= r.top_left.x && r.bottom_right.x <= max.0 && min.1 <= r.top_left.y
            && r.bottom_right.y <= max.1) ==> r.clamped(min, max) == r,
{
}

/// Intersection is symmetric, and two rectangles that do not intersect have
/// no tile in common.
pub proof fn lemma_disjoint_rectangles(a: Rectangle, b: Rectangle, p: Point)
    ensures
        a.intersects(&b) == b.intersects(&a),
        a.contains(p) && b.contains(p) ==> a.intersects(&b),
{
}

} // verus!

//! Points of the tile grid.

use vstd::prelude::*;
use vstd::std_specs::ops::{AddSpecImpl, SubSpecImpl};

verus! {

/// A coordinate (or a displacement) on the tile grid.
#[derive(Debug, Copy, Clone, PartialEq, Eq, Hash, Structural)]
pub struct Point {
    pub x: i16,
    pub y: i16,
}

impl Point {
    pub fn new(x: i16, y: i16) -> (p: Point)
        ensures
            p.x == x,
            p.y == y,
    {
        Point { x, y }
    }

    /// The sum of the two points can be held in 16-bit coordinates.
    pub open spec fn can_add(self, rhs: Point) -> bool {
        &&& i16::MIN <= self.x + rhs.x <= i16::MAX
        &&& i16::MIN <= self.y + rhs.y <= i16::MAX
    }

    /// The coordinate-wise sum.
    pub open spec fn plus(self, rhs: Point) -> Point {
        Point { x: (self.x + rhs.x) as i16, y: (self.y + rhs.y) as i16 }
    }

    /// The difference of the two points can be held in 16-bit coordinates.
    pub open spec fn can_sub(self, rhs: Point) -> bool {
        &&& i16::MIN <= self.x - rhs.x <= i16::MAX
        &&& i16::MIN <= self.y - rhs.y <= i16::MAX
    }

    /// The coordinate-wise difference.
    pub open spec fn minus(self, rhs: Point) -> Point {
        Point { x: (self.x - rhs.x) as i16, y: (self.y - rhs.y) as i16 }
    }

    /// The squared Euclidean length of this point taken as a vector.
    pub open spec fn spec_sqr_radius(&self) -> int {
        self.x * self.x + self.y * self.y
    }

    /// The squared Euclidean length of this point taken as a vector.
    pub fn sqr_radius(&self) -> (r: i64)
        ensures
            r == self.spec_sqr_radius(),
            0 <= r <= 2 * 32768 * 32768,
    {
        let x: i64 = self.x as i64;
        let y: i64 = self.y as i64;
        assert(x * x <= 32768 * 32768 && y * y <= 32768 * 32768) by (nonlinear_arith)
            requires
                -32768 <= x <= 32767,
                -32768 <= y <= 32767,
        ;
        assert(0 <= x * x && 0 <= y * y) by (nonlinear_arith);
        x * x + y * y
    }
}

impl core::ops::Add for Point {
    type Output = Point;

    fn add(self, rhs: Point) -> (sum: Point) {
        Point { x: self.x + rhs.x, y: self.y + rhs.y }
    }
}

impl AddSpecImpl for Point {
    open spec fn obeys_add_spec() -> bool {
        true
    }

    open spec fn add_req(self, rhs: Point) -> bool {
        self.can_add(rhs)
    }

    open spec fn add_spec(self, rhs: Point) -> Point {
        self.plus(rhs)
    }
}

impl core::ops::Sub for Point {
    type Output = Point;

    fn sub(self, rhs: Point) -> (diff: Point) {
        Point { x: self.x - rhs.x, y: self.y - rhs.y }
    }
}

impl SubSpecImpl for Point {
    open spec fn obeys_sub_spec() -> bool {
        true
    }

    open spec fn sub_req(self, rhs: Point) -> bool {
        self.can_sub(rhs)
    }

    open spec fn sub_spec(self, rhs: Point) -> Point {
        self.minus(rhs)
    }
}

} // verus!

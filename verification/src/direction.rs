//! The four directions of a step.

use vstd::prelude::*;

use crate::point::Point;

verus! {

/// One of the four ways a unit can step.
#[derive(Debug, Copy, Clone, PartialEq, Eq, Structural)]
pub enum Direction {
    Up,
    Down,
    Left,
    Right,
}

impl Direction {
    pub open spec fn rel_point(self) -> Point {
        match self {
            Direction::Up => Point { x: 0, y: -1i16 },
            Direction::Down => Point { x: 0, y: 1 },
            Direction::Left => Point { x: -1i16, y: 0 },
            Direction::Right => Point { x: 1, y: 0 },
        }
    }

    /// The displacement of one step in this direction; `y` grows downwards.
    #[verifier::when_used_as_spec(rel_point)]
    pub fn to_rel_point(self) -> (p: Point)
        ensures
            p == self.rel_point(),
    {
        match self {
            Direction::Up => Point::new(0, -1),
            Direction::Down => Point::new(0, 1),
            Direction::Left => Point::new(-1, 0),
            Direction::Right => Point::new(1, 0),
        }
    }
}

} // verus!

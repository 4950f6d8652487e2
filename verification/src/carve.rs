//! Digging rooms and straight corridors out of the wall.

use vstd::prelude::*;

use crate::map::{GameMap, TileType};
use crate::point::Point;
use crate::rectangle::Rectangle;

verus! {

/// The tiles of row `y` between the columns `x1` and `x2`, both included,
/// whichever of the two is the greater.
pub open spec fn h_run(x1: int, x2: int, y: int) -> Set<Point> {
    Set::new(
        |p: Point|
            p.y == y && (if x1 <= x2 {
                x1 <= p.x <= x2
            } else {
                x2 <= p.x <= x1
            }),
    )
}

/// The tiles of column `x` between the rows `y1` and `y2`, both included,
/// whichever of the two is the greater.
pub open spec fn v_run(x: int, y1: int, y2: int) -> Set<Point> {
    Set::new(
        |p: Point|
            p.x == x && (if y1 <= y2 {
                y1 <= p.y <= y2
            } else {
                y2 <= p.y <= y1
            }),
    )
}

impl Rectangle {
    /// The tiles strictly inside the rectangle.
    pub open spec fn inner_tiles(&self) -> Set<Point> {
        Set::new(|p: Point| self.contains_inner(p))
    }
}

impl GameMap {
    /// Every tile of `region` is a tile of this map.
    pub open spec fn covers(&self, region: Set<Point>) -> bool {
        forall|p: Point| #[trigger] region.contains(p) ==> self.in_map(p)
    }

    /// Nothing but the kind of terrain can differ between the two maps, and
    /// it does not.
    pub open spec fn unchanged(&self, before: &GameMap) -> bool {
        &&& self.same_frame(before)
        &&& self.tiles() == before.tiles()
    }

    /// Digs a corridor along row `y` from column `x1` to column `x2`, both
    /// included. A corridor that would leave the map is not dug at all.
    pub fn create_h_tunnel(&mut self, x1: i16, x2: i16, y: i16) -> (r: Result<(), ()>)
        requires
            old(self).wf(),
        ensures
            r.is_ok() == old(self).covers(h_run(x1 as int, x2 as int, y as int)),
            r.is_ok() ==> final(self).is_carving_of(
                old(self),
                h_run(x1 as int, x2 as int, y as int),
            ),
            r.is_err() ==> final(self).unchanged(old(self)),
            final(self).wf(),
    {
        let (lo, hi) = if x1 <= x2 {
            (x1, x2)
        } else {
            (x2, x1)
        };
        let ghost run = h_run(x1 as int, x2 as int, y as int);
        if !self.point_in_map(Point { x: lo, y }) || !self.point_in_map(Point { x: hi, y }) {
            proof {
                assert(run.contains(Point { x: lo, y }));
                assert(run.contains(Point { x: hi, y }));
            }
            return Err(());
        }
        let mut x: i16 = lo;
        while x <= hi
            invariant
                lo <= x <= hi + 1,
                hi < self.width(),
                0 <= lo,
                0 <= y < self.height(),
                self.wf(),
                self.same_frame(old(self)),
                forall|p: Point|
                    self.in_map(p) ==> #[trigger] self.tile_at(p) == if p.y == y && lo <= p.x < x {
                        old(self).tile_at(p).with_type(TileType::Floor)
                    } else {
                        old(self).tile_at(p)
                    },
            decreases hi + 1 - x,
        {
            self.set_tile_type(Point { x, y }, TileType::Floor)?;
            x += 1;
        }
        Ok(())
    }

    /// Digs a corridor along column `x` from row `y1` to row `y2`, both
    /// included. A corridor that would leave the map is not dug at all.
    pub fn create_v_tunnel(&mut self, x: i16, y1: i16, y2: i16) -> (r: Result<(), ()>)
        requires
            old(self).wf(),
        ensures
            r.is_ok() == old(self).covers(v_run(x as int, y1 as int, y2 as int)),
            r.is_ok() ==> final(self).is_carving_of(
                old(self),
                v_run(x as int, y1 as int, y2 as int),
            ),
            r.is_err() ==> final(self).unchanged(old(self)),
            final(self).wf(),
    {
        let (lo, hi) = if y1 <= y2 {
            (y1, y2)
        } else {
            (y2, y1)
        };
        let ghost run = v_run(x as int, y1 as int, y2 as int);
        if !self.point_in_map(Point { x, y: lo }) || !self.point_in_map(Point { x, y: hi }) {
            proof {
                assert(run.contains(Point { x, y: lo }));
                assert(run.contains(Point { x, y: hi }));
            }
            return Err(());
        }
        let mut y: i16 = lo;
        while y <= hi
            invariant
                lo <= y <= hi + 1,
                hi < self.height(),
                0 <= lo,
                0 <= x < self.width(),
                self.wf(),
                self.same_frame(old(self)),
                forall|p: Point|
                    self.in_map(p) ==> #[trigger] self.tile_at(p) == if p.x == x && lo <= p.y < y {
                        old(self).tile_at(p).with_type(TileType::Floor)
                    } else {
                        old(self).tile_at(p)
                    },
            decreases hi + 1 - y,
        {
            self.set_tile_type(Point { x, y }, TileType::Floor)?;
            y += 1;
        }
        Ok(())
    }

    /// Digs out the inside of `rect`, leaving its outermost ring of tiles as
    /// the walls of the room. A room whose inside would leave the map is not
    /// dug at all.
    pub fn create_room(&mut self, rect: &Rectangle) -> (r: Result<(), ()>)
        requires
            old(self).wf(),
            rect.top_left.x < i16::MAX,
            rect.top_left.y < i16::MAX,
        ensures
            r.is_ok() == old(self).covers(rect.inner_tiles()),
            r.is_ok() ==> final(self).is_carving_of(old(self), rect.inner_tiles()),
            r.is_err() ==> final(self).unchanged(old(self)),
            final(self).wf(),
    {
        let x0: i16 = rect.top_left.x + 1;
        let y0: i16 = rect.top_left.y + 1;
        let x1: i16 = rect.bottom_right.x;
        let y1: i16 = rect.bottom_right.y;
        if x0 >= x1 || y0 >= y1 {
            return Ok(());
        }
        if !self.point_in_map(Point { x: x0, y: y0 }) || !self.point_in_map(
            Point { x: x1 - 1, y: y1 - 1 },
        ) {
            proof {
                assert(rect.inner_tiles().contains(Point { x: x0, y: y0 }));
                assert(rect.inner_tiles().contains(
                    Point { x: (x1 - 1) as i16, y: (y1 - 1) as i16 },
                ));
            }
            return Err(());
        }
        let mut y: i16 = y0;
        while y < y1
            invariant
                y0 <= y <= y1,
                x0 < x1,
                0 <= x0,
                0 <= y0,
                x1 <= self.width(),
                y1 <= self.height(),
                self.wf(),
                self.same_frame(old(self)),
                forall|p: Point|
                    self.in_map(p) ==> #[trigger] self.tile_at(p) == if x0 <= p.x < x1 && y0 <= p.y
                        < y {
                        old(self).tile_at(p).with_type(TileType::Floor)
                    } else {
                        old(self).tile_at(p)
                    },
            decreases y1 - y,
        {
            let mut x: i16 = x0;
            while x < x1
                invariant
                    x0 <= x <= x1,
                    y0 <= y < y1,
                    0 <= x0,
                    0 <= y0,
                    x1 <= self.width(),
                    y1 <= self.height(),
                    self.wf(),
                    self.same_frame(old(self)),
                    forall|p: Point|
                        self.in_map(p) ==> #[trigger] self.tile_at(p) == if x0 <= p.x < x1 && (y0
                            <= p.y < y || (p.y == y && p.x < x)) {
                            old(self).tile_at(p).with_type(TileType::Floor)
                        } else {
                            old(self).tile_at(p)
                        },
                decreases x1 - x,
            {
                self.set_tile_type(Point { x, y }, TileType::Floor)?;
                x += 1;
            }
            y += 1;
        }
        Ok(())
    }
}

} // verus!

//! The placing of rooms.

use vstd::prelude::*;
use rand::ThreadRng;

use crate::map::GameMap;
use crate::point::Point;
use crate::random::gen_range;
use crate::rectangle::Rectangle;

verus! {

/// A room is never this wide or high, or more.
pub const ROOM_MAX_SIZE: u8 = 10;

/// A room is at least this wide and high.
pub const ROOM_MIN_SIZE: u8 = 6;

/// The number of tiles of map for each attempt to place a room.
pub const ROOM_PER_TILE: u8 = 120;

/// The tiles that lie inside one of the rooms.
pub open spec fn rooms_region(rooms: Seq<Rectangle>) -> Set<Point>
    decreases rooms.len(),
{
    if rooms.len() == 0 {
        Set::empty()
    } else {
        rooms_region(rooms.drop_last()).union(rooms.last().inner_tiles())
    }
}

/// No two of the rooms intersect.
pub open spec fn rooms_disjoint(rooms: Seq<Rectangle>) -> bool {
    forall|i: int, j: int|
        #![trigger rooms[i], rooms[j]]
        0 <= i < j < rooms.len() ==> !rooms[i].intersects(&rooms[j])
}

/// `room` intersects one of `rooms`.
pub open spec fn intersects_any(rooms: Seq<Rectangle>, room: Rectangle) -> bool {
    exists|i: int| 0 <= i < rooms.len() && (#[trigger] rooms[i]).intersects(&room)
}

impl GameMap {
    /// `room` has a size that rooms are made in, and lies in the map with at
    /// least one tile to spare on its right and bottom side.
    pub open spec fn room_fits(&self, room: Rectangle) -> bool {
        &&& ROOM_MIN_SIZE <= room.extent().0 < ROOM_MAX_SIZE
        &&& ROOM_MIN_SIZE <= room.extent().1 < ROOM_MAX_SIZE
        &&& 0 <= room.top_left.x
        &&& 0 <= room.top_left.y
        &&& room.bottom_right.x + 1 < self.width()
        &&& room.bottom_right.y + 1 < self.height()
    }

    /// Every one of `rooms` fits the map, and no two of them intersect.
    pub open spec fn rooms_valid(&self, rooms: Seq<Rectangle>) -> bool {
        &&& forall|i: int| 0 <= i < rooms.len() ==> self.room_fits(#[trigger] rooms[i])
        &&& rooms_disjoint(rooms)
    }

    /// Accepts `room` unless it intersects a room accepted before: digs it
    /// out, adds it to `rooms` and returns `true`. A room that is turned down
    /// leaves the map and `rooms` as they were.
    pub fn try_place_room(&mut self, rooms: &mut Vec<Rectangle>, room: Rectangle) -> (accepted:
        bool)
        requires
            old(self).wf(),
            old(self).covers(room.inner_tiles()),
            room.top_left.x < i16::MAX,
            room.top_left.y < i16::MAX,
        ensures
            accepted == !intersects_any(old(rooms)@, room),
            accepted ==> final(rooms)@ == old(rooms)@.push(room) && final(self).is_carving_of(
                old(self),
                room.inner_tiles(),
            ),
            !accepted ==> final(rooms)@ == old(rooms)@ && final(self).unchanged(old(self)),
            final(self).wf(),
    {
        let mut hit = false;
        let mut i: usize = 0;
        while i < rooms.len()
            invariant
                i <= rooms.len(),
                rooms@ == old(rooms)@,
                hit == exists|k: int| 0 <= k < i && (#[trigger] rooms@[k]).intersects(&room),
            decreases rooms.len() - i,
        {
            if rooms[i].is_intersecting(&room) {
                hit = true;
            }
            i += 1;
        }
        if !hit {
            let dug = self.create_room(&room);
            assert(dug.is_ok());
            rooms.push(room);
            true
        } else {
            false
        }
    }

    /// Tries `width * height / 120` times to place a room of random size at a
    /// random place of the map, and returns the rooms that were accepted and
    /// the centre of the first of them.
    ///
    /// Whatever the random source yields, the first room is accepted, every
    /// accepted room fits the map, no two of them intersect, and the map
    /// changes by nothing but the floors of those rooms.
    #[verifier::rlimit(40)]
    pub fn build_rooms(&mut self, rng: &mut ThreadRng) -> (r: (Vec<Rectangle>, Point))
        requires
            old(self).wf(),
            old(self).width() > ROOM_MAX_SIZE,
            old(self).height() > ROOM_MAX_SIZE,
        ensures
            final(self).rooms_valid(r.0@),
            1 <= r.0@.len() <= old(self).width() * old(self).height() / (ROOM_PER_TILE as int),
            r.1 == r.0@[0].spec_centre(),
            final(self).is_carving_of(old(self), rooms_region(r.0@)),
    {
        let mut rooms: Vec<Rectangle> = Vec::new();
        let mut player_start = Point { x: 0, y: 0 };
        let (map_width, map_height) = self.get_map_size();
        assert(map_width * map_height <= 255 * 255 && map_width * map_height >= 121)
            by (nonlinear_arith)
            requires
                11 <= map_width <= 255,
                11 <= map_height <= 255,
        ;
        let max_rooms: u16 = map_width as u16 * map_height as u16 / ROOM_PER_TILE as u16;
        proof {
            assert(self.is_carving_of(old(self), rooms_region(rooms@))) by {
                assert forall|p: Point| self.in_map(p) implies #[trigger] self.tile_at(p) == old(
                    self,
                ).tile_at(p) by {}
            }
        }
        let mut attempt: u16 = 0;
        while attempt < max_rooms
            invariant
                attempt <= max_rooms,
                max_rooms >= 1,
                self.wf(),
                self.width() == map_width,
                self.height() == map_height,
                map_width > ROOM_MAX_SIZE,
                map_height > ROOM_MAX_SIZE,
                self.rooms_valid(rooms@),
                rooms@.len() <= attempt,
                attempt > 0 ==> rooms@.len() >= 1,
                rooms@.len() >= 1 ==> player_start == rooms@[0].spec_centre(),
                self.is_carving_of(old(self), rooms_region(rooms@)),
            decreases max_rooms - attempt,
        {
            let width: u8 = gen_range(rng, ROOM_MIN_SIZE as i64, ROOM_MAX_SIZE as i64) as u8;
            let height: u8 = gen_range(rng, ROOM_MIN_SIZE as i64, ROOM_MAX_SIZE as i64) as u8;
            let x: i16 = gen_range(rng, 0, map_width as i64 - width as i64 - 1) as i16;
            let y: i16 = gen_range(rng, 0, map_height as i64 - height as i64 - 1) as i16;
            let room = Rectangle::new(Point { x, y }, (width, height));
            let ghost before = *self;
            let ghost rooms_before = rooms@;
            let centre = room.centre();
            let first = rooms.len() == 0;
            if self.try_place_room(&mut rooms, room) {
                if first {
                    player_start = centre;
                }
                proof {
                    assert(rooms@.drop_last() == rooms_before);
                    assert forall|i: int, j: int|
                        #![trigger rooms@[i], rooms@[j]]
                        0 <= i < j < rooms@.len() implies !rooms@[i].intersects(&rooms@[j]) by {
                        if j == rooms@.len() - 1 {
                            assert(rooms_before[i].intersects(&room) == false);
                        }
                    }
                    lemma_carving_twice(
                        *old(self),
                        before,
                        *self,
                        rooms_region(rooms_before),
                        room.inner_tiles(),
                    );
                }
            } else {
                proof {
                    lemma_carving_kept(*old(self), before, *self, rooms_region(rooms_before));
                }
            }
            attempt += 1;
        }
        (rooms, player_start)
    }
}

/// Carving one region and then another is carving their union.
pub proof fn lemma_carving_twice(
    m0: GameMap,
    m1: GameMap,
    m2: GameMap,
    first: Set<Point>,
    second: Set<Point>,
)
    requires
        m1.is_carving_of(&m0, first),
        m2.is_carving_of(&m1, second),
    ensures
        m2.is_carving_of(&m0, first.union(second)),
{
    assert forall|p: Point| m2.in_map(p) implies #[trigger] m2.tile_at(p) == if first.union(
        second,
    ).contains(p) {
        m0.tile_at(p).with_type(crate::map::TileType::Floor)
    } else {
        m0.tile_at(p)
    } by {
        assert(m1.in_map(p));
        let t = m1.tile_at(p);
    }
}

/// A map that has not changed since a region was carved is still that
/// carving.
pub proof fn lemma_carving_kept(m0: GameMap, m1: GameMap, m2: GameMap, region: Set<Point>)
    requires
        m1.is_carving_of(&m0, region),
        m2.unchanged(&m1),
    ensures
        m2.is_carving_of(&m0, region),
{
    assert forall|p: Point| m2.in_map(p) implies #[trigger] m2.tile_at(p) == if region.contains(
        p,
    ) {
        m0.tile_at(p).with_type(crate::map::TileType::Floor)
    } else {
        m0.tile_at(p)
    } by {
        assert(m2.tile_at(p) == m1.tile_at(p));
    }
}

/// A tile lies in the region of the rooms exactly if it lies inside one of
/// them.
pub proof fn lemma_rooms_region(rooms: Seq<Rectangle>, p: Point)
    ensures
        rooms_region(rooms).contains(p) <==> exists|i: int|
            0 <= i < rooms.len() && (#[trigger] rooms[i]).contains_inner(p),
    decreases rooms.len(),
{
    if rooms.len() > 0 {
        lemma_rooms_region(rooms.drop_last(), p);
        if rooms_region(rooms).contains(p) {
            if rooms.last().contains_inner(p) {
                assert(rooms[rooms.len() - 1].contains_inner(p));
            } else {
                let rest = rooms.drop_last();
                let i = choose|i: int|
                    0 <= i < rest.len() && (#[trigger] rest[i]).contains_inner(p);
                assert(rooms[i].contains_inner(p));
            }
        }
        if exists|i: int| 0 <= i < rooms.len() && (#[trigger] rooms[i]).contains_inner(p) {
            let i = choose|i: int| 0 <= i < rooms.len() && (#[trigger] rooms[i]).contains_inner(p);
            if i < rooms.len() - 1 {
                assert(rooms.drop_last()[i].contains_inner(p));
            }
        }
    }
}

} // verus!

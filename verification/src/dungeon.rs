//! The making of a dungeon, and what holds of every dungeon made.

use vstd::prelude::*;
use rand::ThreadRng;
use std::collections::VecDeque;

use crate::corridors::{
    centres_differ,
    centres_of,
    corridors_region,
    has_link,
    l_path,
    lemma_corridors_region,
    lemma_link_plan_within,
    lemma_links_are_proper,
    link_plan,
    links_are_proper,
    links_within,
};
use crate::map::{GameMap, Tile, TileType};
use crate::point::Point;
use crate::rectangle::Rectangle;
use crate::pathing::unit_views;
use crate::random::gen_range;
use crate::rooms::{lemma_carving_twice, lemma_rooms_region, rooms_region, ROOM_MAX_SIZE};
use crate::unit_type::UnitTypeLists;
use crate::units::{Unit, UnitView};

verus! {

/// A map is at least this wide.
pub const MAP_MIN_WIDTH: u8 = 80;

/// A map is at least this high.
pub const MAP_MIN_HEIGHT: u8 = 50;

/// A map is less wide than this.
pub const MAP_MAX_WIDTH: u8 = 255;

/// A map is less high than this.
pub const MAP_MAX_HEIGHT: u8 = 255;

/// A room holds fewer units than this when the dungeon is made.
pub const ROOM_MAX_MONSTERS: u8 = 3;

/// Of `ROOM_CHANCE_OF_MONSTERS_N` rooms this many hold units, on average.
pub const ROOM_CHANCE_OF_MONSTERS_I: u32 = 2;

pub const ROOM_CHANCE_OF_MONSTERS_N: u32 = 5;

/// `unit` is a unit as it is put into a dungeon: of a kind of the catalog
/// that can be drawn, with all its hit points, and inside one of the rooms.
pub open spec fn is_placed(
    unit: UnitView,
    rooms: Seq<Rectangle>,
    unit_types: &UnitTypeLists,
) -> bool {
    &&& unit.hp == unit.kind.max_hp
    &&& exists|r: int| 0 <= r < rooms.len() && (#[trigger] rooms[r]).contains_inner(unit.position)
    &&& exists|t: int|
        0 <= t < unit_types.types().len() && unit_types.weights()[t].weight > 0 && unit.kind
            == (#[trigger] unit_types.types()[t])@
}

/// Every one of `npcs` is a unit as it is put into a dungeon.
pub open spec fn all_placed(
    npcs: Seq<UnitView>,
    rooms: Seq<Rectangle>,
    unit_types: &UnitTypeLists,
) -> bool {
    forall|i: int| 0 <= i < npcs.len() ==> is_placed(#[trigger] npcs[i], rooms, unit_types)
}

/// The floor of a dungeon with the given rooms: the insides of the rooms and
/// the corridors that `link_plan` lays between them, the `k`-th corridor
/// laid out as `flips[k]` says.
pub open spec fn dungeon_region(rooms: Seq<Rectangle>, flips: Seq<bool>) -> Set<Point> {
    rooms_region(rooms).union(
        corridors_region(centres_of(rooms), link_plan(centres_of(rooms)), flips),
    )
}

/// One can get from room `a` to room `b` by following links:
/// `chain` names the rooms on the way.
pub open spec fn is_chain(
    links: Seq<(usize, usize)>,
    chain: Seq<usize>,
    a: usize,
    b: usize,
) -> bool {
    &&& chain.len() >= 1
    &&& chain[0] == a
    &&& chain.last() == b
    &&& forall|t: int|
        0 <= t < chain.len() - 1 ==> has_link(links, #[trigger] chain[t], chain[t + 1])
}

/// One can get from room `a` to room `b` by following links.
pub open spec fn joined(links: Seq<(usize, usize)>, a: usize, b: usize) -> bool {
    exists|chain: Seq<usize>| #[trigger] is_chain(links, chain, a, b)
}

/// One can get from the first of `n` rooms to every other by following
/// links.
pub open spec fn links_join_all(links: Seq<(usize, usize)>, n: int) -> bool {
    forall|i: usize| i < n ==> #[trigger] joined(links, 0, i)
}

impl GameMap {
    /// This map is a freshly generated dungeon with the given rooms and
    /// corridors: the rooms are valid, there is at least one, the tiles of
    /// `dungeon_region` are floor and all others wall, nothing has been seen
    /// yet and no item lies about.
    #[verifier::opaque]
    pub open spec fn is_dungeon(&self, rooms: Seq<Rectangle>, flips: Seq<bool>) -> bool {
        &&& self.wf()
        &&& 1 <= rooms.len() <= usize::MAX
        &&& self.rooms_valid(rooms)
        &&& flips.len() == link_plan(centres_of(rooms)).len()
        &&& self.items().len() == 0
        &&& forall|p: Point|
            self.in_map(p) ==> #[trigger] self.tile_at(p) == (Tile {
                position: p,
                tile_type: if dungeon_region(rooms, flips).contains(p) {
                    TileType::Floor
                } else {
                    TileType::Wall
                },
                is_explored: false,
                is_visible: false,
            })
    }

    /// Rooms that fit the map have their centres inside themselves, and so in
    /// the map.
    pub proof fn lemma_rooms_hold_centres(&self, rooms: Seq<Rectangle>)
        requires
            self.wf(),
            self.rooms_valid(rooms),
        ensures
            self.holds_centres(rooms),
            forall|i: int|
                0 <= i < rooms.len() ==> (#[trigger] rooms[i]).contains_inner(
                    rooms[i].spec_centre(),
                ),
    {
        assert forall|i: int| 0 <= i < rooms.len() implies {
            &&& i16::MIN <= (#[trigger] rooms[i]).top_left.x + rooms[i].bottom_right.x <= i16::MAX
            &&& i16::MIN <= rooms[i].top_left.y + rooms[i].bottom_right.y <= i16::MAX
            &&& self.in_map(rooms[i].spec_centre())
            &&& rooms[i].contains_inner(rooms[i].spec_centre())
        } by {
            assert(self.room_fits(rooms[i]));
        }
    }

    /// A dungeon is a well-formed map with at least one room; its rooms fit
    /// the map and do not intersect, and have their centres inside them.
    pub proof fn lemma_dungeon_rooms(&self, rooms: Seq<Rectangle>, flips: Seq<bool>)
        requires
            self.is_dungeon(rooms, flips),
        ensures
            self.wf(),
            1 <= rooms.len() <= usize::MAX,
            self.rooms_valid(rooms),
            self.holds_centres(rooms),
            forall|i: int|
                0 <= i < rooms.len() ==> (#[trigger] rooms[i]).contains_inner(
                    rooms[i].spec_centre(),
                ),
            flips.len() == link_plan(centres_of(rooms)).len(),
            links_within(link_plan(centres_of(rooms)), rooms.len() as int),
            self.items().len() == 0,
    {
        reveal(GameMap::is_dungeon);
        self.lemma_rooms_hold_centres(rooms);
        lemma_link_plan_within(centres_of(rooms));
    }

    /// In a dungeon no two rooms have the same centre, and every corridor
    /// joins two different rooms.
    pub proof fn lemma_dungeon_links(&self, rooms: Seq<Rectangle>, flips: Seq<bool>)
        requires
            self.is_dungeon(rooms, flips),
        ensures
            centres_differ(centres_of(rooms)),
            links_are_proper(link_plan(centres_of(rooms))),
    {
        self.lemma_dungeon_rooms(rooms, flips);
        let centres = centres_of(rooms);
        assert forall|a: int, b: int|
            #![trigger centres[a], centres[b]]
            0 <= a < b < centres.len() implies centres[a] != centres[b] by {
            assert(rooms[a].contains_inner(rooms[a].spec_centre()));
            assert(rooms[b].contains_inner(rooms[b].spec_centre()));
            assert(!rooms[a].intersects(&rooms[b]));
        }
        lemma_links_are_proper(centres, centres.len());
    }

    /// In a dungeon the floor is the dungeon's region, tile for tile, and no
    /// tile of it lies on the rim of the map.
    #[verifier::rlimit(40)]
    pub proof fn lemma_dungeon_floor(&self, rooms: Seq<Rectangle>, flips: Seq<bool>)
        requires
            self.is_dungeon(rooms, flips),
        ensures
            forall|p: Point| #[trigger]
                dungeon_region(rooms, flips).contains(p) <==> self.is_floor(p),
            self.is_enclosed(),
    {
        reveal(GameMap::is_dungeon);
        let centres = centres_of(rooms);
        let links = link_plan(centres);
        self.lemma_rooms_hold_centres(rooms);
        lemma_link_plan_within(centres);
        assert forall|p: Point| #[trigger] dungeon_region(rooms, flips).contains(p) implies 0 < p.x
            < self.width() - 1 && 0 < p.y < self.height() - 1 by {
            lemma_rooms_region(rooms, p);
            lemma_corridors_region(centres, links, flips, p);
            if rooms_region(rooms).contains(p) {
                let i = choose|i: int|
                    0 <= i < rooms.len() && (#[trigger] rooms[i]).contains_inner(p);
                assert(self.room_fits(rooms[i]));
            } else {
                let k = choose|k: int|
                    0 <= k < links.len() && #[trigger] l_path(
                        centres[links[k].0 as int],
                        centres[links[k].1 as int],
                        flips[k],
                    ).contains(p);
                let a = links[k].0 as int;
                let b = links[k].1 as int;
                assert(self.room_fits(rooms[a]));
                assert(self.room_fits(rooms[b]));
                assert(rooms[a].contains_inner(rooms[a].spec_centre()));
                assert(rooms[b].contains_inner(rooms[b].spec_centre()));
            }
        }
        assert forall|p: Point| #[trigger]
            dungeon_region(rooms, flips).contains(p) <==> self.is_floor(p) by {
            if self.in_map(p) {
                let t = self.tile_at(p);
            }
        }
        assert forall|p: Point|
            #![trigger self.tile_at(p)]
            self.in_map(p) && (p.x == 0 || p.y == 0 || p.x == self.width() - 1 || p.y
                == self.height() - 1) implies self.type_at(p) == TileType::Wall by {
            assert(!dungeon_region(rooms, flips).contains(p));
        }
    }

    /// In a dungeon a tile inside a room is connected to the centre of that
    /// room.
    pub proof fn lemma_room_tile_connected(
        &self,
        rooms: Seq<Rectangle>,
        flips: Seq<bool>,
        i: int,
        p: Point,
    )
        requires
            self.is_dungeon(rooms, flips),
            0 <= i < rooms.len(),
            rooms[i].contains_inner(p),
        ensures
            self.connected(rooms[i].spec_centre(), p),
    {
        self.lemma_room_floor(rooms, flips, i);
        self.lemma_dungeon_rooms(rooms, flips);
        assert(rooms[i].contains_inner(rooms[i].spec_centre()));
        self.lemma_room_connected(rooms[i], rooms[i].spec_centre(), p);
    }

    /// In a dungeon a tile of a corridor is connected to the centre of the
    /// room at which the corridor starts.
    pub proof fn lemma_corridor_tile_connected(
        &self,
        rooms: Seq<Rectangle>,
        flips: Seq<bool>,
        k: int,
        p: Point,
    )
        requires
            self.is_dungeon(rooms, flips),
            0 <= k < link_plan(centres_of(rooms)).len(),
            l_path(
                centres_of(rooms)[link_plan(centres_of(rooms))[k].0 as int],
                centres_of(rooms)[link_plan(centres_of(rooms))[k].1 as int],
                flips[k],
            ).contains(p),
        ensures
            link_plan(centres_of(rooms))[k].0 < rooms.len(),
            self.connected(rooms[link_plan(centres_of(rooms))[k].0 as int].spec_centre(), p),
    {
        let centres = centres_of(rooms);
        let links = link_plan(centres);
        self.lemma_corridor_floor(rooms, flips, k);
        assert(links_within(links, rooms.len() as int)) by {
            self.lemma_dungeon_rooms(rooms, flips);
        }
        let a = links[k].0 as int;
        self.lemma_l_path_connected(centres[a], centres[links[k].1 as int], flips[k], p);
    }

    /// In a dungeon every floor tile is connected to the centre of some
    /// room: the lemma names one.
    #[verifier::rlimit(40)]
    pub proof fn lemma_floor_near_room(
        &self,
        rooms: Seq<Rectangle>,
        flips: Seq<bool>,
        p: Point,
    ) -> (near: usize)
        requires
            self.is_dungeon(rooms, flips),
            self.is_floor(p),
        ensures
            near < rooms.len(),
            self.connected(rooms[near as int].spec_centre(), p),
    {
        let centres = centres_of(rooms);
        let links = link_plan(centres);
        assert(dungeon_region(rooms, flips).contains(p)) by {
            self.lemma_dungeon_floor(rooms, flips);
        }
        assert(rooms.len() <= usize::MAX) by {
            self.lemma_dungeon_rooms(rooms, flips);
        }
        if rooms_region(rooms).contains(p) {
            lemma_rooms_region(rooms, p);
            let i = choose|i: int| 0 <= i < rooms.len() && (#[trigger] rooms[i]).contains_inner(p);
            self.lemma_room_tile_connected(rooms, flips, i, p);
            i as usize
        } else {
            lemma_corridors_region(centres, links, flips, p);
            let k = choose|k: int|
                0 <= k < links.len() && #[trigger] l_path(
                    centres[links[k].0 as int],
                    centres[links[k].1 as int],
                    flips[k],
                ).contains(p);
            self.lemma_corridor_tile_connected(rooms, flips, k, p);
            links[k].0
        }
    }

    /// In a dungeon the inside of every room is floor.
    pub proof fn lemma_room_floor(&self, rooms: Seq<Rectangle>, flips: Seq<bool>, i: int)
        requires
            self.is_dungeon(rooms, flips),
            0 <= i < rooms.len(),
        ensures
            self.all_floor(rooms[i].inner_tiles()),
    {
        self.lemma_dungeon_floor(rooms, flips);
        assert forall|p: Point| #[trigger] rooms[i].inner_tiles().contains(p) implies self.is_floor(
            p,
        ) by {
            lemma_rooms_region(rooms, p);
            assert(rooms[i].contains_inner(p));
            assert(dungeon_region(rooms, flips).contains(p));
        }
    }

    /// In a dungeon every tile of every corridor is floor.
    pub proof fn lemma_corridor_floor(&self, rooms: Seq<Rectangle>, flips: Seq<bool>, k: int)
        requires
            self.is_dungeon(rooms, flips),
            0 <= k < link_plan(centres_of(rooms)).len(),
        ensures
            self.all_floor(
                l_path(
                    centres_of(rooms)[link_plan(centres_of(rooms))[k].0 as int],
                    centres_of(rooms)[link_plan(centres_of(rooms))[k].1 as int],
                    flips[k],
                ),
            ),
    {
        let centres = centres_of(rooms);
        let links = link_plan(centres);
        let path = l_path(centres[links[k].0 as int], centres[links[k].1 as int], flips[k]);
        self.lemma_dungeon_floor(rooms, flips);
        assert forall|p: Point| #[trigger] path.contains(p) implies self.is_floor(p) by {
            lemma_corridors_region(centres, links, flips, p);
            assert(dungeon_region(rooms, flips).contains(p));
        }
    }

    /// In a dungeon the centres of two rooms that a link joins are connected.
    pub proof fn lemma_linked_rooms_connected(
        &self,
        rooms: Seq<Rectangle>,
        flips: Seq<bool>,
        a: usize,
        b: usize,
    )
        requires
            self.is_dungeon(rooms, flips),
            has_link(link_plan(centres_of(rooms)), a, b),
        ensures
            a < rooms.len(),
            b < rooms.len(),
            self.connected(rooms[a as int].spec_centre(), rooms[b as int].spec_centre()),
    {
        let centres = centres_of(rooms);
        let links = link_plan(centres);
        self.lemma_dungeon_rooms(rooms, flips);
        if links.contains((a, b)) {
            let k = choose|k: int| 0 <= k < links.len() && links[k] == (a, b);
            self.lemma_corridor_floor(rooms, flips, k);
            let (from, to) = (centres[a as int], centres[b as int]);
            assert(l_path(from, to, flips[k]).contains(to));
            self.lemma_l_path_connected(from, to, flips[k], to);
        } else {
            let k = choose|k: int| 0 <= k < links.len() && links[k] == (b, a);
            self.lemma_corridor_floor(rooms, flips, k);
            let (from, to) = (centres[b as int], centres[a as int]);
            assert(l_path(from, to, flips[k]).contains(to));
            self.lemma_l_path_connected(from, to, flips[k], to);
            self.lemma_connected_sym(centres[b as int], centres[a as int]);
        }
    }

    /// In a dungeon the centres of two rooms are connected if one can get
    /// from one room to the other by following links.
    pub proof fn lemma_chain_connected(
        &self,
        rooms: Seq<Rectangle>,
        flips: Seq<bool>,
        chain: Seq<usize>,
        a: usize,
        b: usize,
    )
        requires
            self.is_dungeon(rooms, flips),
            is_chain(link_plan(centres_of(rooms)), chain, a, b),
            a < rooms.len(),
        ensures
            b < rooms.len(),
            self.connected(rooms[a as int].spec_centre(), rooms[b as int].spec_centre()),
        decreases chain.len(),
    {
        let links = link_plan(centres_of(rooms));
        if chain.len() == 1 {
            self.lemma_room_floor(rooms, flips, a as int);
            self.lemma_dungeon_rooms(rooms, flips);
            assert(rooms[a as int].inner_tiles().contains(rooms[a as int].spec_centre()));
            self.lemma_connected_refl(rooms[a as int].spec_centre());
        } else {
            let rest = chain.drop_last();
            let m = rest.last();
            assert forall|t: int| 0 <= t < rest.len() - 1 implies has_link(
                links,
                #[trigger] rest[t],
                rest[t + 1],
            ) by {
                assert(has_link(links, chain[t], chain[t + 1]));
            }
            self.lemma_chain_connected(rooms, flips, rest, a, m);
            assert(has_link(links, chain[chain.len() - 2], chain[chain.len() - 2 + 1]));
            self.lemma_linked_rooms_connected(rooms, flips, m, b);
            self.lemma_connected_trans(
                rooms[a as int].spec_centre(),
                rooms[m as int].spec_centre(),
                rooms[b as int].spec_centre(),
            );
        }
    }

    /// The centre of every room can be reached from that of the first room,
    /// where the player starts.
    pub open spec fn rooms_are_reachable(&self, rooms: Seq<Rectangle>) -> bool {
        forall|i: int|
            0 <= i < rooms.len() ==> self.connected(
                rooms[0].spec_centre(),
                #[trigger] rooms[i].spec_centre(),
            )
    }

    /// In a dungeon every floor tile can be reached from where the player
    /// starts, if the centre of every room can. (Only if, too: those centres
    /// are floor tiles.)
    pub proof fn lemma_floor_reachable(&self, rooms: Seq<Rectangle>, flips: Seq<bool>, p: Point)
        requires
            self.is_dungeon(rooms, flips),
            self.rooms_are_reachable(rooms),
            self.is_floor(p),
        ensures
            self.connected(rooms[0].spec_centre(), p),
    {
        let near = self.lemma_floor_near_room(rooms, flips, p);
        assert(self.connected(rooms[0].spec_centre(), rooms[near as int].spec_centre()));
        self.lemma_connected_trans(rooms[0].spec_centre(), rooms[near as int].spec_centre(), p);
    }

    /// In a dungeon the centre of every room is a floor tile.
    pub proof fn lemma_centres_are_floor(&self, rooms: Seq<Rectangle>, flips: Seq<bool>, i: int)
        requires
            self.is_dungeon(rooms, flips),
            0 <= i < rooms.len(),
        ensures
            self.is_floor(rooms[i].spec_centre()),
    {
        self.lemma_room_floor(rooms, flips, i);
        self.lemma_dungeon_rooms(rooms, flips);
        assert(rooms[i].inner_tiles().contains(rooms[i].spec_centre()));
    }

    /// In a dungeon in which one can get from the first room to every other
    /// by following links, the centre of every room can be reached from
    /// that of the first.
    pub proof fn lemma_joined_rooms_reachable(&self, rooms: Seq<Rectangle>, flips: Seq<bool>)
        requires
            self.is_dungeon(rooms, flips),
            links_join_all(link_plan(centres_of(rooms)), rooms.len() as int),
        ensures
            self.rooms_are_reachable(rooms),
    {
        let links = link_plan(centres_of(rooms));
        self.lemma_dungeon_rooms(rooms, flips);
        assert forall|i: int| 0 <= i < rooms.len() implies self.connected(
            rooms[0].spec_centre(),
            #[trigger] rooms[i].spec_centre(),
        ) by {
            assert(joined(links, 0, i as usize));
            let chain = choose|chain: Seq<usize>| #[trigger] is_chain(links, chain, 0, i as usize);
            self.lemma_chain_connected(rooms, flips, chain, 0, i as usize);
        }
    }

    /// In a dungeon in which one can get from the first room to every other
    /// by following links, every floor tile can be reached from the centre
    /// of the first room, where the player starts.
    pub proof fn lemma_dungeon_connected(&self, rooms: Seq<Rectangle>, flips: Seq<bool>, p: Point)
        requires
            self.is_dungeon(rooms, flips),
            links_join_all(link_plan(centres_of(rooms)), rooms.len() as int),
            self.is_floor(p),
        ensures
            self.connected(rooms[0].spec_centre(), p),
    {
        self.lemma_joined_rooms_reachable(rooms, flips);
        self.lemma_floor_reachable(rooms, flips, p);
    }

    /// Puts up to `ROOM_MAX_MONSTERS - 1` units into `room`, each of a kind
    /// drawn from the catalog and on a tile drawn from the inside of the
    /// room, and adds them to `npc_list`. The map does not change.
    pub fn place_npcs<'a>(
        &mut self,
        room: &Rectangle,
        units: &'a UnitTypeLists,
        npc_list: &mut VecDeque<Unit<'a>>,
        rng: &mut ThreadRng,
    )
        requires
            units.wf(),
            room.top_left.x + 1 < room.bottom_right.x,
            room.top_left.y + 1 < room.bottom_right.y,
        ensures
            *final(self) == *old(self),
            old(npc_list)@.len() <= final(npc_list)@.len() < old(npc_list)@.len()
                + ROOM_MAX_MONSTERS,
            final(npc_list)@.take(old(npc_list)@.len() as int) == old(npc_list)@,
            forall|i: int|
                old(npc_list)@.len() <= i < final(npc_list)@.len() ==> is_placed(
                    (#[trigger] final(npc_list)@[i])@,
                    seq![*room],
                    units,
                ),
    {
        let max_monsters = gen_range(rng, 0, ROOM_MAX_MONSTERS as i64) as u8;
        GameMap::add_npcs(room, units, npc_list, max_monsters, rng);
    }

    /// Puts `count` units into `room`, each of a kind drawn from the catalog
    /// and on a tile drawn from the inside of the room, and adds them to the
    /// end of `npc_list` in the order in which they are made.
    ///
    /// Whatever the random source yields, `count` units are added, and every
    /// one of them is as `is_placed` says.
    pub fn add_npcs<'a>(
        room: &Rectangle,
        units: &'a UnitTypeLists,
        npc_list: &mut VecDeque<Unit<'a>>,
        count: u8,
        rng: &mut ThreadRng,
    )
        requires
            units.wf(),
            room.top_left.x + 1 < room.bottom_right.x,
            room.top_left.y + 1 < room.bottom_right.y,
        ensures
            final(npc_list)@.len() == old(npc_list)@.len() + count,
            final(npc_list)@.take(old(npc_list)@.len() as int) == old(npc_list)@,
            forall|i: int|
                old(npc_list)@.len() <= i < final(npc_list)@.len() ==> is_placed(
                    (#[trigger] final(npc_list)@[i])@,
                    seq![*room],
                    units,
                ),
    {
        let mut made: u8 = 0;
        while made < count
            invariant
                made <= count,
                units.wf(),
                room.top_left.x + 1 < room.bottom_right.x,
                room.top_left.y + 1 < room.bottom_right.y,
                npc_list@.len() == old(npc_list)@.len() + made,
                npc_list@.take(old(npc_list)@.len() as int) == old(npc_list)@,
                forall|i: int|
                    old(npc_list)@.len() <= i < npc_list@.len() ==> is_placed(
                        (#[trigger] npc_list@[i])@,
                        seq![*room],
                        units,
                    ),
            decreases count - made,
        {
            let position = room.get_random_position(rng);
            let monster_type = units.get_random_type(rng);
            let monster = Unit::new(position, monster_type);
            proof {
                assert(seq![*room][0].contains_inner(position));
            }
            npc_list.push_back(monster);
            made += 1;
        }
    }

    /// Builds a dungeon on a map of `width` by `height` tiles, and returns
    /// the map, the rooms in the order in which they were accepted, and the
    /// tile on which the player starts: the centre of the first room.
    pub fn generate(width: u8, height: u8, rng: &mut ThreadRng) -> (r: (
        GameMap,
        Vec<Rectangle>,
        Point,
    ))
        requires
            width > ROOM_MAX_SIZE,
            height > ROOM_MAX_SIZE,
        ensures
            r.0.width() == width,
            r.0.height() == height,
            r.2 == r.1@[0].spec_centre(),
            r.1@.len() <= width * height / 120,
            exists|flips: Seq<bool>| #[trigger] r.0.is_dungeon(r.1@, flips),
    {
        let mut map = GameMap::new(width, height);
        let ghost blank = map;
        let (rooms, player_start) = map.build_rooms(rng);
        let ghost with_rooms = map;
        proof {
            map.lemma_rooms_hold_centres(rooms@);
        }
        let flips = map.build_coridoors(&rooms, rng);
        proof {
            lemma_carving_twice(
                blank,
                with_rooms,
                map,
                rooms_region(rooms@),
                corridors_region(centres_of(rooms@), link_plan(centres_of(rooms@)), flips@),
            );
            reveal(GameMap::is_dungeon);
            assert(rooms@.len() == rooms.len());
            assert(map.is_dungeon(rooms@, flips@));
        }
        (map, rooms, player_start)
    }

    /// Builds a dungeon of random size, and puts units in some of its rooms.
    /// Returns the map, the units, and the tile on which the player starts:
    /// the centre of the first room.
    ///
    /// Whatever the random source yields, the map is a dungeon as
    /// `is_dungeon` says, and every unit is as `is_placed` says.
    #[verifier::rlimit(40)]
    pub fn init<'a>(unit_types: &'a UnitTypeLists, rng: &mut ThreadRng) -> (r: (
        GameMap,
        VecDeque<Unit<'a>>,
        Point,
    ))
        requires
            unit_types.wf(),
        ensures
            MAP_MIN_WIDTH <= r.0.width() < MAP_MAX_WIDTH,
            MAP_MIN_HEIGHT <= r.0.height() < MAP_MAX_HEIGHT,
            exists|rooms: Seq<Rectangle>, flips: Seq<bool>|
                {
                    &&& #[trigger] r.0.is_dungeon(rooms, flips)
                    &&& r.2 == rooms[0].spec_centre()
                    &&& all_placed(unit_views(r.1@), rooms, unit_types)
                },
    {
        let map_width = gen_range(rng, MAP_MIN_WIDTH as i64, MAP_MAX_WIDTH as i64) as u8;
        let map_height = gen_range(rng, MAP_MIN_HEIGHT as i64, MAP_MAX_HEIGHT as i64) as u8;
        let (mut map, rooms, player_start) = GameMap::generate(map_width, map_height, rng);
        let ghost flips = choose|flips: Seq<bool>| #[trigger] map.is_dungeon(rooms@, flips);
        let ghost made = map;
        proof {
            map.lemma_dungeon_rooms(rooms@, flips);
        }
        let mut npcs: VecDeque<Unit<'a>> = VecDeque::new();
        let mut i: usize = 0;
        while i < rooms.len()
            invariant
                i <= rooms.len(),
                unit_types.wf(),
                map == made,
                map.rooms_valid(rooms@),
                all_placed(unit_views(npcs@), rooms@.take(i as int), unit_types),
            decreases rooms.len() - i,
        {
            let room = &rooms[i];
            let ghost before = npcs@;
            let ghost seen = rooms@.take(i as int);
            let ghost now = rooms@.take(i + 1);
            proof {
                assert(map.room_fits(rooms@[i as int]));
            }
            let throw = gen_range(rng, 0, ROOM_CHANCE_OF_MONSTERS_N as i64);
            if throw < ROOM_CHANCE_OF_MONSTERS_I as i64 {
                map.place_npcs(room, unit_types, &mut npcs, rng);
            }
            proof {
                assert forall|k: int| 0 <= k < npcs@.len() implies is_placed(
                    #[trigger] unit_views(npcs@)[k],
                    now,
                    unit_types,
                ) by {
                    let unit = unit_views(npcs@)[k];
                    if k < before.len() {
                        assert(npcs@.take(before.len() as int)[k] == before[k]);
                        assert(is_placed(unit_views(before)[k], seen, unit_types));
                        let r = choose|r: int|
                            0 <= r < seen.len() && (#[trigger] seen[r]).contains_inner(
                                unit.position,
                            );
                        assert(now[r].contains_inner(unit.position));
                    } else {
                        assert(is_placed(npcs@[k]@, seq![*room], unit_types));
                        assert(seq![*room][0] == now[i as int]);
                        assert(now[i as int].contains_inner(unit.position));
                    }
                }
            }
            i += 1;
        }
        proof {
            assert(rooms@.take(rooms@.len() as int) == rooms@);
        }
        (map, npcs, player_start)
    }
}


} // verus!

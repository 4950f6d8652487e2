//! The map: a grid of tiles, and what has been seen of it.

use vstd::prelude::*;

use crate::color::Color;
use crate::grid::{
    grid_contains,
    grid_index,
    grid_point,
    lemma_grid_index,
    lemma_grid_index_injective,
    lemma_grid_point,
};
use crate::item::Item;
use crate::point::Point;
use crate::traits::{Position, Renderable};

verus! {

/// What stands in the way of a step onto a tile.
#[derive(Debug, Copy, Clone, PartialEq, Eq, Structural)]
pub enum CanMoveResponse {
    /// Nothing: the tile can be entered.
    Open,
    /// The terrain of the tile.
    Scenery,
}

/// The two kinds of terrain.
#[derive(Debug, Copy, Clone, PartialEq, Eq, Structural)]
pub enum TileType {
    Floor,
    Wall,
}

impl TileType {
    pub open spec fn color_not_visible(self) -> Color {
        match self {
            TileType::Floor => Color { r: 50, g: 50, b: 150 },
            TileType::Wall => Color { r: 0, g: 0, b: 100 },
        }
    }

    /// The colour of a tile of this terrain that was seen before and is out
    /// of sight now.
    #[verifier::when_used_as_spec(color_not_visible)]
    pub fn get_color_not_visible(self) -> (c: Color)
        ensures
            c == self.color_not_visible(),
    {
        match self {
            TileType::Floor => Color::new(50, 50, 150),
            TileType::Wall => Color::new(0, 0, 100),
        }
    }

    pub open spec fn color_visible(self) -> Color {
        match self {
            TileType::Floor => Color { r: 200, g: 180, b: 50 },
            TileType::Wall => Color { r: 130, g: 110, b: 50 },
        }
    }

    /// The colour of a tile of this terrain that is in sight.
    #[verifier::when_used_as_spec(color_visible)]
    pub fn get_color_visible(self) -> (c: Color)
        ensures
            c == self.color_visible(),
    {
        match self {
            TileType::Floor => Color::new(200, 180, 50),
            TileType::Wall => Color::new(130, 110, 50),
        }
    }

    pub open spec fn glyph(self) -> char {
        match self {
            TileType::Floor => '.',
            TileType::Wall => '#',
        }
    }

    #[verifier::when_used_as_spec(glyph)]
    pub fn get_glyph(self) -> (g: char)
        ensures
            g == self.glyph(),
    {
        match self {
            TileType::Floor => '.',
            TileType::Wall => '#',
        }
    }

    pub open spec fn spec_blocks_move(self) -> bool {
        self == TileType::Wall
    }

    /// Whether no unit can stand on this terrain.
    #[verifier::when_used_as_spec(spec_blocks_move)]
    pub fn blocks_move(self) -> (b: bool)
        ensures
            b == (self == TileType::Wall),
    {
        match self {
            TileType::Floor => false,
            TileType::Wall => true,
        }
    }

    pub open spec fn spec_blocks_sight(self) -> bool {
        self == TileType::Wall
    }

    /// Whether this terrain hides what lies behind it.
    #[verifier::when_used_as_spec(spec_blocks_sight)]
    pub fn blocks_sight(self) -> (b: bool)
        ensures
            b == (self == TileType::Wall),
    {
        match self {
            TileType::Floor => false,
            TileType::Wall => true,
        }
    }
}

/// One cell of the map.
///
/// `is_visible` says whether the tile was in sight when the field of view was
/// last computed; `is_explored` whether it ever was.
#[derive(Debug, Copy, Clone, PartialEq, Eq, Structural)]
pub struct Tile {
    pub position: Point,
    pub tile_type: TileType,
    pub is_explored: bool,
    pub is_visible: bool,
}

impl Tile {
    pub fn new(pos: Point, tile_type: TileType) -> (t: Tile)
        ensures
            t == (Tile { position: pos, tile_type, is_explored: false, is_visible: false }),
    {
        Tile { position: pos, tile_type, is_explored: false, is_visible: false }
    }

    /// This tile with its terrain replaced.
    pub open spec fn with_type(self, tile_type: TileType) -> Tile {
        Tile { tile_type, ..self }
    }

    /// This tile after a field-of-view pass that found it in sight, or not.
    pub open spec fn seen(self, in_sight: bool) -> Tile {
        Tile { is_visible: in_sight, is_explored: self.is_explored || in_sight, ..self }
    }
}

impl Position for Tile {
    open spec fn position(&self) -> Point {
        self.position
    }

    fn get_x(&self) -> (x: i16) {
        self.position.x
    }

    fn get_y(&self) -> (y: i16) {
        self.position.y
    }
}

impl Renderable for Tile {
    /// Black until the tile has been explored, then by terrain and by whether
    /// the tile is in sight.
    open spec fn color(&self) -> Color {
        if !self.is_explored {
            Color::spec_black()
        } else if self.is_visible {
            self.tile_type.color_visible()
        } else {
            self.tile_type.color_not_visible()
        }
    }

    open spec fn glyph(&self) -> char {
        self.tile_type.glyph()
    }

    fn get_color(&self) -> (c: Color) {
        if !self.is_explored {
            Color::black()
        } else {
            match self.is_visible {
                true => self.tile_type.get_color_visible(),
                false => self.tile_type.get_color_not_visible(),
            }
        }
    }

    fn get_glyph(&self) -> (g: char) {
        self.tile_type.get_glyph()
    }
}

/// The dungeon: a grid of tiles stored row by row, and the items that lie on
/// it.
pub struct GameMap {
    width: u8,
    height: u8,
    tile_map: Vec<Tile>,
    items: Vec<Item>,
}

impl GameMap {
    pub closed spec fn width(&self) -> int {
        self.width as int
    }

    pub closed spec fn height(&self) -> int {
        self.height as int
    }

    /// The tiles, row by row.
    pub closed spec fn tiles(&self) -> Seq<Tile> {
        self.tile_map@
    }

    /// The items, in the order in which they were placed.
    pub closed spec fn items(&self) -> Seq<Item> {
        self.items@
    }

    /// The grid is complete and every tile knows where it stands.
    pub open spec fn wf(&self) -> bool {
        &&& 0 <= self.width() <= u8::MAX
        &&& 0 <= self.height() <= u8::MAX
        &&& self.tiles().len() == self.width() * self.height()
        &&& forall|i: int|
            0 <= i < self.tiles().len() ==> (#[trigger] self.tiles()[i]).position == grid_point(
                self.width(),
                i,
            )
    }

    pub open spec fn in_map(&self, p: Point) -> bool {
        grid_contains(self.width(), self.height(), p)
    }

    /// The tile at `p`, for `p` in the map.
    pub open spec fn tile_at(&self, p: Point) -> Tile {
        self.tiles()[grid_index(self.width(), p)]
    }

    pub open spec fn type_at(&self, p: Point) -> TileType {
        self.tile_at(p).tile_type
    }

    pub open spec fn is_floor(&self, p: Point) -> bool {
        self.in_map(p) && self.type_at(p) == TileType::Floor
    }

    /// The two maps have the same size and hold the same items.
    pub open spec fn same_frame(&self, other: &GameMap) -> bool {
        &&& self.width() == other.width()
        &&& self.height() == other.height()
        &&& self.items() == other.items()
    }

    /// This map is `before` with the tiles of `region` turned to floor and
    /// nothing else changed.
    pub open spec fn is_carving_of(&self, before: &GameMap, region: Set<Point>) -> bool {
        &&& self.wf()
        &&& self.same_frame(before)
        &&& forall|p: Point|
            self.in_map(p) ==> #[trigger] self.tile_at(p) == if region.contains(p) {
                before.tile_at(p).with_type(TileType::Floor)
            } else {
                before.tile_at(p)
            }
    }

    /// In a well-formed map each point of the grid has a tile of its own,
    /// which carries that point as its position.
    pub proof fn lemma_tile_at(&self, p: Point, q: Point)
        requires
            self.wf(),
            self.in_map(p),
            self.in_map(q),
        ensures
            0 <= grid_index(self.width(), p) < self.tiles().len(),
            self.tile_at(p).position == p,
            p != q ==> grid_index(self.width(), p) != grid_index(self.width(), q),
    {
        lemma_grid_index(self.width(), self.height(), p);
        if grid_index(self.width(), p) == grid_index(self.width(), q) {
            lemma_grid_index_injective(self.width(), self.height(), p, q);
        }
    }

    /// A map of `width` by `height` tiles, all of them unexplored wall.
    pub fn new(width: u8, height: u8) -> (map: GameMap)
        ensures
            map.wf(),
            map.width() == width,
            map.height() == height,
            map.items().len() == 0,
            forall|p: Point|
                map.in_map(p) ==> #[trigger] map.tile_at(p) == (Tile {
                    position: p,
                    tile_type: TileType::Wall,
                    is_explored: false,
                    is_visible: false,
                }),
    {
        let mut tile_map: Vec<Tile> = Vec::new();
        for y in 0..height
            invariant
                tile_map@.len() == y * width,
                forall|i: int|
                    0 <= i < tile_map@.len() ==> #[trigger] tile_map@[i] == (Tile {
                        position: grid_point(width as int, i),
                        tile_type: TileType::Wall,
                        is_explored: false,
                        is_visible: false,
                    }),
        {
            for x in 0..width
                invariant
                    y < height,
                    tile_map@.len() == y * width + x,
                    forall|i: int|
                        0 <= i < tile_map@.len() ==> #[trigger] tile_map@[i] == (Tile {
                            position: grid_point(width as int, i),
                            tile_type: TileType::Wall,
                            is_explored: false,
                            is_visible: false,
                        }),
            {
                let pos = Point { x: x as i16, y: y as i16 };
                proof {
                    lemma_grid_index(width as int, height as int, pos);
                }
                tile_map.push(Tile::new(pos, TileType::Wall));
            }
            assert(y * width + width == (y + 1) * width) by (nonlinear_arith);
        }
        let map = GameMap { width, height, tile_map, items: Vec::new() };
        proof {
            assert(height * width == width * height) by (nonlinear_arith);
            assert forall|p: Point| map.in_map(p) implies #[trigger] map.tile_at(p) == (Tile {
                position: p,
                tile_type: TileType::Wall,
                is_explored: false,
                is_visible: false,
            }) by {
                lemma_grid_index(width as int, height as int, p);
            }
        }
        map
    }

    pub fn point_in_map(&self, p: Point) -> (b: bool)
        ensures
            b == self.in_map(p),
    {
        let Point { x, y } = p;
        x >= 0 && x < self.width as i16 && y >= 0 && y < self.height as i16
    }

    /// The terrain at `pos`, or `Err` for a point that is not in the map.
    pub fn get_tile_type(&self, pos: Point) -> (r: Result<TileType, ()>)
        requires
            self.wf(),
        ensures
            r == if self.in_map(pos) {
                Ok::<TileType, ()>(self.type_at(pos))
            } else {
                Err::<TileType, ()>(())
            },
    {
        if !self.point_in_map(pos) {
            Err(())
        } else {
            let Point { x, y } = pos;
            proof {
                lemma_grid_index(self.width(), self.height(), pos);
            }
            Ok(self.tile_map[y as usize * self.width as usize + x as usize].tile_type)
        }
    }

    pub open spec fn move_response(&self, pos: Point) -> CanMoveResponse {
        if self.in_map(pos) && self.type_at(pos).spec_blocks_move() {
            CanMoveResponse::Scenery
        } else {
            CanMoveResponse::Open
        }
    }

    /// Whether terrain stands in the way of a step onto `pos`. Only a tile
    /// of the map can do so.
    pub fn can_move_to(&self, pos: Point) -> (r: CanMoveResponse)
        requires
            self.wf(),
        ensures
            r == self.move_response(pos),
    {
        match self.get_tile_type(pos) {
            Ok(tile) if tile.blocks_move() => CanMoveResponse::Scenery,
            _ => CanMoveResponse::Open,
        }
    }

    pub fn get_map_size(&self) -> (size: (u8, u8))
        ensures
            size.0 == self.width(),
            size.1 == self.height(),
    {
        (self.width, self.height)
    }

    pub fn place_item(&mut self, item: Item)
        ensures
            final(self).items() == old(self).items().push(item),
            final(self).width() == old(self).width(),
            final(self).height() == old(self).height(),
            final(self).tiles() == old(self).tiles(),
    {
        self.items.push(item);
    }

    /// Replaces the terrain at `pos`, or returns `Err` and changes nothing
    /// for a point that is not in the map.
    pub fn set_tile_type(&mut self, pos: Point, new_tile: TileType) -> (r: Result<(), ()>)
        requires
            old(self).wf(),
        ensures
            r.is_ok() == old(self).in_map(pos),
            final(self).wf(),
            final(self).same_frame(old(self)),
            !old(self).in_map(pos) ==> final(self).tiles() == old(self).tiles(),
            old(self).in_map(pos) ==> final(self).tiles() == old(self).tiles().update(
                grid_index(old(self).width(), pos),
                old(self).tile_at(pos).with_type(new_tile),
            ),
            forall|p: Point|
                final(self).in_map(p) ==> #[trigger] final(self).tile_at(p) == if p == pos {
                    old(self).tile_at(p).with_type(new_tile)
                } else {
                    old(self).tile_at(p)
                },
    {
        if !self.point_in_map(pos) {
            Err(())
        } else {
            let Point { x, y } = pos;
            proof {
                lemma_grid_index(self.width(), self.height(), pos);
            }
            let idx = y as usize * self.width as usize + x as usize;
            self.tile_map[idx].tile_type = new_tile;
            proof {
                assert forall|p: Point| self.in_map(p) implies #[trigger] self.tile_at(p) == if p
                    == pos {
                    old(self).tile_at(p).with_type(new_tile)
                } else {
                    old(self).tile_at(p)
                } by {
                    lemma_grid_index(self.width(), self.height(), p);
                    if p != pos {
                        if grid_index(self.width(), p) == grid_index(self.width(), pos) {
                            lemma_grid_index_injective(self.width(), self.height(), p, pos);
                        }
                    }
                }
            }
            Ok(())
        }
    }
}


impl GameMap {
    /// The tiles, row by row: the tile at the point `(x, y)` is the one at
    /// place `y * width + x`.
    pub fn get_tiles(&self) -> (tiles: &Vec<Tile>)
        ensures
            tiles@ == self.tiles(),
    {
        &self.tile_map
    }

    /// The items, in the order in which they were placed.
    pub fn get_items(&self) -> (items: &Vec<Item>)
        ensures
            items@ == self.items(),
    {
        &self.items
    }

    /// The map as it is once a field-of-view pass has found in sight the
    /// tiles that `in_fov` marks, row by row: those are visible and
    /// explored, the others are not visible and as explored as before.
    pub open spec fn is_seen_from(&self, before: &GameMap, in_fov: Seq<bool>) -> bool {
        &&& self.same_frame(before)
        &&& self.tiles().len() == before.tiles().len()
        &&& forall|i: int|
            0 <= i < self.tiles().len() ==> #[trigger] self.tiles()[i] == before.tiles()[i].seen(
                in_fov[i],
            )
    }

    /// Takes over the outcome of a field-of-view computation: `in_fov` says
    /// of each tile, row by row, whether it is in sight. The tiles in sight
    /// become visible and explored; the others are no longer visible, and
    /// stay explored if they were.
    pub fn update_fov(&mut self, in_fov: &Vec<bool>)
        requires
            old(self).wf(),
            in_fov@.len() == old(self).tiles().len(),
        ensures
            final(self).wf(),
            final(self).is_seen_from(old(self), in_fov@),
            forall|p: Point|
                final(self).in_map(p) ==> #[trigger] final(self).tile_at(p) == old(self).tile_at(
                    p,
                ).seen(in_fov@[grid_index(old(self).width(), p)]),
    {
        let mut i: usize = 0;
        while i < self.tile_map.len()
            invariant
                i <= self.tile_map.len(),
                self.same_frame(old(self)),
                self.tiles().len() == old(self).tiles().len(),
                in_fov@.len() == self.tiles().len(),
                forall|k: int|
                    0 <= k < i ==> #[trigger] self.tiles()[k] == old(self).tiles()[k].seen(
                        in_fov@[k],
                    ),
                forall|k: int|
                    i <= k < self.tiles().len() ==> #[trigger] self.tiles()[k] == old(
                        self,
                    ).tiles()[k],
            decreases self.tile_map.len() - i,
        {
            let visible = in_fov[i];
            self.tile_map[i].is_visible = visible;
            if visible {
                self.tile_map[i].is_explored = true;
            }
            i += 1;
        }
        proof {
            assert forall|p: Point| self.in_map(p) implies #[trigger] self.tile_at(p) == old(
                self,
            ).tile_at(p).seen(in_fov@[grid_index(old(self).width(), p)]) by {
                lemma_grid_index(self.width(), self.height(), p);
            }
        }
    }

    pub open spec fn visible_at(&self, p: Point) -> bool {
        self.in_map(p) && self.tile_at(p).is_visible
    }

    /// Whether `p` is a tile of the map that was in sight when the field of
    /// view was last computed.
    pub fn point_in_fov(&self, p: Point) -> (b: bool)
        requires
            self.wf(),
        ensures
            b == self.visible_at(p),
    {
        if !self.point_in_map(p) {
            false
        } else {
            proof {
                lemma_grid_index(self.width(), self.height(), p);
            }
            self.tile_map[p.y as usize * self.width as usize + p.x as usize].is_visible
        }
    }

    pub open spec fn explored_at(&self, p: Point) -> bool {
        self.in_map(p) && self.tile_at(p).is_explored
    }

    /// Whether `p` is a tile of the map that has ever been in sight.
    pub fn point_is_explored(&self, p: Point) -> (b: bool)
        requires
            self.wf(),
        ensures
            b == self.explored_at(p),
    {
        if !self.point_in_map(p) {
            false
        } else {
            proof {
                lemma_grid_index(self.width(), self.height(), p);
            }
            self.tile_map[p.y as usize * self.width as usize + p.x as usize].is_explored
        }
    }
}

/// Taking over the same field of view a second time changes nothing.
pub proof fn lemma_update_fov_idempotent(m0: GameMap, m1: GameMap, m2: GameMap, in_fov: Seq<bool>)
    requires
        m1.is_seen_from(&m0, in_fov),
        m2.is_seen_from(&m1, in_fov),
    ensures
        m2.tiles() == m1.tiles(),
        m2.same_frame(&m1),
{
    assert(m2.tiles() =~= m1.tiles());
}

/// A tile that has been explored stays explored through a field-of-view
/// pass, and a tile that the pass finds in sight is explored after it.
pub proof fn lemma_update_fov_explores(m0: GameMap, m1: GameMap, in_fov: Seq<bool>, p: Point)
    requires
        m0.wf(),
        m1.is_seen_from(&m0, in_fov),
        m0.in_map(p),
    ensures
        m0.explored_at(p) ==> m1.explored_at(p),
        m1.visible_at(p) == in_fov[grid_index(m0.width(), p)],
        m1.visible_at(p) ==> m1.explored_at(p),
        m1.type_at(p) == m0.type_at(p),
{
    lemma_grid_index(m0.width(), m0.height(), p);
}

/// `after` is `before` as seen with some field of view.
pub open spec fn is_fov_pass(before: GameMap, after: GameMap) -> bool {
    exists|in_fov: Seq<bool>| #[trigger] after.is_seen_from(&before, in_fov)
}

/// `maps` is a history of field-of-view passes: each map but the first is
/// the one before it as seen with some field of view.
pub open spec fn is_fov_history(maps: Seq<GameMap>) -> bool {
    forall|k: int| 0 <= k < maps.len() - 1 ==> is_fov_pass(#[trigger] maps[k], maps[k + 1])
}

/// Through any number of field-of-view passes a tile that has been explored
/// stays explored, and the terrain stays as it is.
pub proof fn lemma_explored_grows(maps: Seq<GameMap>, a: int, b: int, p: Point)
    requires
        is_fov_history(maps),
        0 <= a <= b < maps.len(),
        maps[a].wf(),
        maps[a].in_map(p),
    ensures
        maps[b].wf(),
        maps[b].in_map(p),
        maps[a].explored_at(p) ==> maps[b].explored_at(p),
        maps[b].type_at(p) == maps[a].type_at(p),
    decreases b - a,
{
    if a < b {
        lemma_explored_grows(maps, a, b - 1, p);
        assert(is_fov_pass(maps[b - 1], maps[b - 1 + 1]));
        let in_fov = choose|in_fov: Seq<bool>| #[trigger]
            maps[b].is_seen_from(&maps[b - 1], in_fov);
        lemma_seen_wf(maps[b - 1], maps[b], in_fov);
        lemma_update_fov_explores(maps[b - 1], maps[b], in_fov, p);
    }
}

/// A field-of-view pass leaves a well-formed map well-formed.
pub proof fn lemma_seen_wf(m0: GameMap, m1: GameMap, in_fov: Seq<bool>)
    requires
        m0.wf(),
        m1.is_seen_from(&m0, in_fov),
    ensures
        m1.wf(),
{
    assert forall|i: int| 0 <= i < m1.tiles().len() implies (#[trigger] m1.tiles()[i]).position
        == grid_point(m1.width(), i) by {
        assert(m1.tiles()[i] == m0.tiles()[i].seen(in_fov[i]));
    }
}


impl GameMap {
    /// No tile on the rim of the map is floor.
    pub open spec fn is_enclosed(&self) -> bool {
        forall|p: Point|
            #![trigger self.tile_at(p)]
            self.in_map(p) && (p.x == 0 || p.y == 0 || p.x == self.width() - 1 || p.y
                == self.height() - 1) ==> self.type_at(p) == TileType::Wall
    }

    /// In a map that is walled in, a tile that a unit can stand on has all
    /// the tiles around it in the map.
    pub proof fn lemma_open_inside(&self, p: Point)
        requires
            self.wf(),
            self.is_enclosed(),
            self.is_open(p),
        ensures
            0 < p.x < self.width() - 1,
            0 < p.y < self.height() - 1,
    {
        let t = self.tile_at(p);
    }

    /// Whether no tile on the rim of the map is floor.
    pub fn check_enclosed(&self) -> (b: bool)
        requires
            self.wf(),
        ensures
            b == self.is_enclosed(),
    {
        let mut i: usize = 0;
        while i < self.tile_map.len()
            invariant
                i <= self.tile_map.len(),
                self.wf(),
                forall|k: int|
                    0 <= k < i ==> {
                        let p = (#[trigger] self.tiles()[k]).position;
                        (p.x == 0 || p.y == 0 || p.x == self.width() - 1 || p.y == self.height()
                            - 1) ==> self.tiles()[k].tile_type == TileType::Wall
                    },
            decreases self.tile_map.len() - i,
        {
            let tile = &self.tile_map[i];
            let p = tile.position;
            if (p.x == 0 || p.y == 0 || p.x == self.width as i16 - 1 || p.y == self.height as i16
                - 1) && tile.tile_type != TileType::Wall {
                proof {
                    if self.width() > 0 {
                        lemma_grid_point(self.width(), self.height(), i as int);
                        assert(self.tile_at(p) == self.tiles()[i as int]);
                    } else {
                        assert(self.width() * self.height() == 0) by (nonlinear_arith)
                            requires
                                self.width() == 0,
                        ;
                    }
                }
                return false;
            }
            i += 1;
        }
        proof {
            assert forall|p: Point|
                #![trigger self.tile_at(p)]
                self.in_map(p) && (p.x == 0 || p.y == 0 || p.x == self.width() - 1 || p.y
                    == self.height() - 1) implies self.type_at(p) == TileType::Wall by {
                lemma_grid_index(self.width(), self.height(), p);
                let k = grid_index(self.width(), p);
                assert(self.tiles()[k].position == p);
            }
        }
        true
    }

    /// `p` is a tile of the map that a unit can stand on.
    pub open spec fn is_open(&self, p: Point) -> bool {
        self.in_map(p) && !self.type_at(p).spec_blocks_move()
    }

    /// Whether `p` is a tile of the map that a unit can stand on.
    pub fn tile_is_open(&self, p: Point) -> (b: bool)
        requires
            self.wf(),
        ensures
            b == self.is_open(p),
    {
        match self.get_tile_type(p) {
            Ok(tile) => !tile.blocks_move(),
            Err(_) => false,
        }
    }
}

} // verus!

//! The grid that a field-of-view or a path computation works on.

use vstd::prelude::*;

use crate::grid::{
    grid_contains,
    grid_index,
    grid_point,
    lemma_grid_index,
    lemma_grid_index_injective,
    lemma_grid_point,
};
use crate::map::{GameMap, Tile};
use crate::point::Point;

verus! {

/// What a cell lets through: light, and units.
#[derive(Debug, Copy, Clone, PartialEq, Eq, Structural)]
pub struct FovCell {
    pub transparent: bool,
    pub walkable: bool,
}

/// The grid that a field-of-view or a path computation works on: for each
/// cell, row by row, whether light passes it and whether a unit can.
pub struct FovMap {
    width: u8,
    height: u8,
    cells: Vec<FovCell>,
}

impl FovMap {
    pub closed spec fn width(&self) -> int {
        self.width as int
    }

    pub closed spec fn height(&self) -> int {
        self.height as int
    }

    /// The cells, row by row.
    pub closed spec fn cells(&self) -> Seq<FovCell> {
        self.cells@
    }

    pub open spec fn wf(&self) -> bool {
        &&& 0 < self.width() <= u8::MAX
        &&& 0 < self.height() <= u8::MAX
        &&& self.cells().len() == self.width() * self.height()
    }

    pub open spec fn contains(&self, p: Point) -> bool {
        grid_contains(self.width(), self.height(), p)
    }

    /// The cell at `p`, for `p` in the grid.
    pub open spec fn cell_at(&self, p: Point) -> FovCell {
        self.cells()[grid_index(self.width(), p)]
    }

    /// A grid of `width` by `height` cells that let nothing through.
    pub fn new(width: u8, height: u8) -> (map: FovMap)
        requires
            width > 0,
            height > 0,
        ensures
            map.wf(),
            map.width() == width,
            map.height() == height,
            forall|p: Point|
                map.contains(p) ==> #[trigger] map.cell_at(p) == (FovCell {
                    transparent: false,
                    walkable: false,
                }),
    {
        let mut cells: Vec<FovCell> = Vec::new();
        assert(width * height <= u8::MAX * u8::MAX) by (nonlinear_arith)
            requires
                0 <= width <= u8::MAX,
                0 <= height <= u8::MAX,
        ;
        let count: usize = width as usize * height as usize;
        let mut i: usize = 0;
        while i < count
            invariant
                i <= count,
                cells@.len() == i,
                forall|k: int|
                    0 <= k < i ==> #[trigger] cells@[k] == (FovCell {
                        transparent: false,
                        walkable: false,
                    }),
            decreases count - i,
        {
            cells.push(FovCell { transparent: false, walkable: false });
            i += 1;
        }
        let map = FovMap { width, height, cells };
        proof {
            assert forall|p: Point| map.contains(p) implies #[trigger] map.cell_at(p) == (FovCell {
                transparent: false,
                walkable: false,
            }) by {
                lemma_grid_index(width as int, height as int, p);
            }
        }
        map
    }

    pub fn size(&self) -> (size: (u8, u8))
        ensures
            size.0 == self.width(),
            size.1 == self.height(),
    {
        (self.width, self.height)
    }

    /// The cells, row by row: the cell at the point `(x, y)` is the one at
    /// place `y * width + x`.
    pub fn get_cells(&self) -> (cells: &Vec<FovCell>)
        ensures
            cells@ == self.cells(),
    {
        &self.cells
    }

    /// Says of the cell at `pos` what it lets through.
    pub fn set(&mut self, pos: Point, transparent: bool, walkable: bool)
        requires
            old(self).wf(),
            old(self).contains(pos),
        ensures
            final(self).wf(),
            final(self).width() == old(self).width(),
            final(self).height() == old(self).height(),
            final(self).cells() == old(self).cells().update(
                grid_index(old(self).width(), pos),
                FovCell { transparent, walkable },
            ),
            forall|p: Point|
                final(self).contains(p) ==> #[trigger] final(self).cell_at(p) == if p == pos {
                    FovCell { transparent, walkable }
                } else {
                    old(self).cell_at(p)
                },
    {
        proof {
            lemma_grid_index(self.width(), self.height(), pos);
        }
        let idx = pos.y as usize * self.width as usize + pos.x as usize;
        self.cells[idx] = FovCell { transparent, walkable };
        proof {
            assert forall|p: Point| self.contains(p) implies #[trigger] self.cell_at(p) == if p
                == pos {
                FovCell { transparent, walkable }
            } else {
                old(self).cell_at(p)
            } by {
                lemma_grid_index(self.width(), self.height(), p);
                if p != pos && grid_index(self.width(), p) == grid_index(self.width(), pos) {
                    lemma_grid_index_injective(self.width(), self.height(), p, pos);
                }
            }
        }
    }

    pub fn is_walkable(&self, pos: Point) -> (b: bool)
        requires
            self.wf(),
            self.contains(pos),
        ensures
            b == self.cell_at(pos).walkable,
    {
        proof {
            lemma_grid_index(self.width(), self.height(), pos);
        }
        self.cells[pos.y as usize * self.width as usize + pos.x as usize].walkable
    }

    pub fn is_transparent(&self, pos: Point) -> (b: bool)
        requires
            self.wf(),
            self.contains(pos),
        ensures
            b == self.cell_at(pos).transparent,
    {
        proof {
            lemma_grid_index(self.width(), self.height(), pos);
        }
        self.cells[pos.y as usize * self.width as usize + pos.x as usize].transparent
    }
}

/// What the terrain of a tile lets through.
pub open spec fn cell_of(tile: Tile) -> FovCell {
    FovCell {
        transparent: !tile.tile_type.spec_blocks_sight(),
        walkable: !tile.tile_type.spec_blocks_move(),
    }
}

impl GameMap {
    /// Says of each cell of `fov_map` on which one of `tiles` stands what the
    /// terrain of that tile lets through.
    pub fn build_fov_map(tiles: &Vec<Tile>, fov_map: &mut FovMap)
        requires
            old(fov_map).wf(),
            tiles@.len() == old(fov_map).cells().len(),
            forall|i: int|
                0 <= i < tiles@.len() ==> (#[trigger] tiles@[i]).position == grid_point(
                    old(fov_map).width(),
                    i,
                ),
        ensures
            final(fov_map).wf(),
            final(fov_map).width() == old(fov_map).width(),
            final(fov_map).height() == old(fov_map).height(),
            forall|i: int|
                0 <= i < tiles@.len() ==> #[trigger] final(fov_map).cells()[i] == cell_of(
                    tiles@[i],
                ),
    {
        let mut i: usize = 0;
        while i < tiles.len()
            invariant
                i <= tiles.len(),
                fov_map.wf(),
                fov_map.width() == old(fov_map).width(),
                fov_map.height() == old(fov_map).height(),
                tiles@.len() == fov_map.cells().len(),
                forall|k: int|
                    0 <= k < tiles@.len() ==> (#[trigger] tiles@[k]).position == grid_point(
                        fov_map.width(),
                        k,
                    ),
                forall|k: int| 0 <= k < i ==> #[trigger] fov_map.cells()[k] == cell_of(tiles@[k]),
            decreases tiles.len() - i,
        {
            let tile = &tiles[i];
            proof {
                lemma_grid_point(fov_map.width(), fov_map.height(), i as int);
            }
            fov_map.set(
                tile.position,
                !tile.tile_type.blocks_sight(),
                !tile.tile_type.blocks_move(),
            );
            i += 1;
        }
    }

    /// The grid for a field-of-view or a path computation on this map: a
    /// cell lets light through unless its tile blocks sight, and units
    /// unless its tile blocks movement.
    pub fn get_pathfinding_map(&self) -> (path_map: FovMap)
        requires
            self.wf(),
            self.width() > 0,
            self.height() > 0,
        ensures
            path_map.wf(),
            path_map.width() == self.width(),
            path_map.height() == self.height(),
            forall|p: Point|
                self.in_map(p) ==> #[trigger] path_map.cell_at(p) == cell_of(self.tile_at(p)),
    {
        let (width, height) = self.get_map_size();
        let mut path_map = FovMap::new(width, height);
        GameMap::build_fov_map(self.get_tiles(), &mut path_map);
        proof {
            assert forall|p: Point| self.in_map(p) implies #[trigger] path_map.cell_at(p)
                == cell_of(self.tile_at(p)) by {
                lemma_grid_index(self.width(), self.height(), p);
            }
        }
        path_map
    }
}

} // verus!

//! The step that a unit takes on its way to a target.

use vstd::prelude::*;
use std::collections::VecDeque;

use crate::fov::{cell_of, FovCell, FovMap};
use crate::map::GameMap;
use crate::point::Point;
use crate::traits::Position;
use crate::units::{Unit, UnitView};

verus! {

/// A path of more steps than this is not followed.
pub const PATH_LENGTH_CAP: i32 = 25;

/// What a search for a path came to: whether it found none, how many steps
/// the path has, and the first of them, if the search gave one.
#[derive(Debug, Copy, Clone, PartialEq, Eq, Structural)]
pub struct PathResult {
    pub is_empty: bool,
    pub len: i32,
    pub next: Option<Point>,
}

/// What to search a path on, from where and to where.
pub struct PathQuery {
    pub map: FovMap,
    pub from: Point,
    pub to: Point,
}

/// One coordinate of the step that leads straight towards a target: `d`,
/// the target's distance along this axis, divided by the length of the
/// whole distance `(d, other)` and rounded to the nearest whole number.
///
/// That is 1 or -1, by the sign of `d`, where `d` is at least half that
/// length, so where `4 * d * d >= d * d + other * other`, and 0 elsewhere.
pub open spec fn unit_step(d: int, other: int) -> int {
    if d != 0 && 3 * d * d >= other * other {
        if d > 0 {
            1
        } else {
            -1
        }
    } else {
        0
    }
}

/// The tile next to `from` that lies straight towards `target`.
pub open spec fn fallback_step(from: Point, target: Point) -> Point {
    Point {
        x: (from.x + unit_step(target.x - from.x, target.y - from.y)) as i16,
        y: (from.y + unit_step(target.y - from.y, target.x - from.x)) as i16,
    }
}

/// A path is followed if it is not empty, has no more than `PATH_LENGTH_CAP`
/// steps, and comes with a first step.
pub open spec fn path_is_usable(path: PathResult) -> bool {
    !path.is_empty && path.len <= PATH_LENGTH_CAP && path.next.is_some()
}

/// The step that a unit at `from` takes towards `target`: the first step of
/// the path that was found, or, where that path is not followed, the step
/// straight towards the target.
pub open spec fn step_towards(from: Point, path: PathResult, target: Point) -> Point {
    if path_is_usable(path) {
        path.next.unwrap()
    } else {
        fallback_step(from, target)
    }
}

/// The two tiles share an edge or a corner.
pub open spec fn neighbours(a: Point, b: Point) -> bool {
    &&& -1 <= a.x - b.x <= 1
    &&& -1 <= a.y - b.y <= 1
    &&& a != b
}

/// The step straight towards a target leads to a tile next to the one it
/// starts from, or stays where it is if the target is there; and from a
/// tile next to the target it leads onto the target.
pub proof fn lemma_fallback_step(from: Point, target: Point)
    requires
        i16::MIN < from.x < i16::MAX,
        i16::MIN < from.y < i16::MAX,
    ensures
        from != target ==> neighbours(fallback_step(from, target), from),
        from == target ==> fallback_step(from, target) == from,
        neighbours(from, target) ==> fallback_step(from, target) == target,
{
    let dx = target.x - from.x;
    let dy = target.y - from.y;
    if from != target {
        if dx != 0 && dy != 0 {
            assert(3 * dx * dx >= dy * dy || 3 * dy * dy >= dx * dx) by (nonlinear_arith)
                requires
                    dx != 0,
                    dy != 0,
            ;
        } else if dx != 0 {
            assert(3 * dx * dx >= dy * dy) by (nonlinear_arith)
                requires
                    dx != 0,
                    dy == 0,
            ;
        } else {
            assert(3 * dy * dy >= dx * dx) by (nonlinear_arith)
                requires
                    dy != 0,
                    dx == 0,
            ;
        }
    }
    if neighbours(from, target) {
        assert(dx != 0 ==> 3 * dx * dx >= dy * dy) by (nonlinear_arith)
            requires
                -1 <= dx <= 1,
                -1 <= dy <= 1,
        ;
        assert(dy != 0 ==> 3 * dy * dy >= dx * dx) by (nonlinear_arith)
            requires
                -1 <= dx <= 1,
                -1 <= dy <= 1,
        ;
    }
}

/// Where no path is followed, because none was found or because it is too
/// long, the step is the one straight towards the target, and from a tile
/// next to the target that step leads onto the target. Where a path is
/// followed, the step is the first of that path.
pub proof fn lemma_step_towards(from: Point, path: PathResult, target: Point)
    requires
        i16::MIN < from.x < i16::MAX,
        i16::MIN < from.y < i16::MAX,
    ensures
        path.is_empty || path.len > PATH_LENGTH_CAP ==> step_towards(from, path, target)
            == fallback_step(from, target),
        !path_is_usable(path) && neighbours(from, target) ==> step_towards(from, path, target)
            == target,
        path_is_usable(path) ==> Some(step_towards(from, path, target)) == path.next,
        neighbours(from, target) && (path_is_usable(path) ==> path.next == Some(target))
            ==> step_towards(from, path, target) == target,
{
    lemma_fallback_step(from, target);
}

/// What the units of `npcs` make of the cell `cell` at `p`: a unit that
/// stands there lets light through and, if it blocks the way, no unit. Of
/// several units on one tile the last one counts.
pub open spec fn blocked_cell(cell: FovCell, npcs: Seq<UnitView>, p: Point) -> FovCell
    decreases npcs.len(),
{
    if npcs.len() == 0 {
        cell
    } else if npcs.last().position == p {
        FovCell { transparent: true, walkable: !npcs.last().kind.is_blocking }
    } else {
        blocked_cell(cell, npcs.drop_last(), p)
    }
}

/// The units as what they are.
pub open spec fn unit_views(npcs: Seq<Unit>) -> Seq<UnitView> {
    Seq::new(npcs.len(), |i: int| npcs[i]@)
}

/// Every unit stands on a tile of the map.
pub open spec fn all_in_map(map: &GameMap, npcs: Seq<UnitView>) -> bool {
    forall|i: int| 0 <= i < npcs.len() ==> map.in_map((#[trigger] npcs[i]).position)
}

fn unit_step_of(d: i16, other: i16) -> (s: i16)
    ensures
        s == unit_step(d as int, other as int),
{
    let d64: i64 = d as i64;
    let o64: i64 = other as i64;
    assert(0 <= d64 * d64 <= 32768 * 32768 && 0 <= o64 * o64 <= 32768 * 32768) by (nonlinear_arith)
        requires
            -32768 <= d64 <= 32767,
            -32768 <= o64 <= 32767,
    ;
    assert(3 * d64 * d64 == 3 * (d64 * d64)) by (nonlinear_arith);
    if d != 0 && 3 * (d64 * d64) >= o64 * o64 {
        if d > 0 {
            1
        } else {
            -1
        }
    } else {
        0
    }
}

impl<'a> Unit<'a> {
    /// The grid on which this unit searches its way: that of the map, with
    /// every unit of `npcs` marked on it as `blocked_cell` says; and with it
    /// the two ends of the way, from this unit to `target`.
    ///
    /// The marks are made on a grid of their own: the map does not change.
    pub fn get_path_query(&self, map: &GameMap, npcs: &VecDeque<Unit<'a>>, target: Point) -> (query:
        PathQuery)
        requires
            map.wf(),
            map.in_map(self@.position),
            map.in_map(target),
            all_in_map(map, unit_views(npcs@)),
        ensures
            query.from == self@.position,
            query.to == target,
            query.map.wf(),
            query.map.width() == map.width(),
            query.map.height() == map.height(),
            forall|p: Point|
                map.in_map(p) ==> #[trigger] query.map.cell_at(p) == blocked_cell(
                    cell_of(map.tile_at(p)),
                    unit_views(npcs@),
                    p,
                ),
    {
        let mut path_map = map.get_pathfinding_map();
        let ghost views = unit_views(npcs@);
        let mut i: usize = 0;
        while i < npcs.len()
            invariant
                i <= npcs.len(),
                map.wf(),
                views == unit_views(npcs@),
                all_in_map(map, views),
                path_map.wf(),
                path_map.width() == map.width(),
                path_map.height() == map.height(),
                forall|p: Point|
                    map.in_map(p) ==> #[trigger] path_map.cell_at(p) == blocked_cell(
                        cell_of(map.tile_at(p)),
                        views.take(i as int),
                        p,
                    ),
            decreases npcs.len() - i,
        {
            let npc = &npcs[i];
            let pos = npc.get_position();
            proof {
                assert(views[i as int] == npcs@[i as int]@);
                assert(map.in_map(views[i as int].position));
                assert(views.take(i + 1).drop_last() == views.take(i as int));
            }
            path_map.set(pos, true, !npc.is_blocking());
            i += 1;
        }
        proof {
            assert(views.take(npcs@.len() as int) == views);
        }
        PathQuery { map: path_map, from: self.get_position(), to: target }
    }

    /// The tile onto which this unit steps on its way to `target`, given the
    /// path that a search found.
    pub fn get_step_towards(&self, path: &PathResult, target: Point) -> (step: Point)
        requires
            i16::MIN < self@.position.x < i16::MAX,
            i16::MIN < self@.position.y < i16::MAX,
            target.can_sub(self@.position),
        ensures
            step == step_towards(self@.position, *path, target),
    {
        if !path.is_empty && path.len <= PATH_LENGTH_CAP {
            if let Some(step) = path.next {
                return step;
            }
        }
        let cur_pos = self.get_position();
        let delta = target - cur_pos;
        let new_pos = Point {
            x: unit_step_of(delta.x, delta.y),
            y: unit_step_of(delta.y, delta.x),
        };
        new_pos + cur_pos
    }
}

} // verus!

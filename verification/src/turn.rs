//! The turn of a single unit.

use vstd::prelude::*;

use crate::corridors::sqr_distance;
use crate::map::GameMap;
use crate::pathing::{step_towards, PathResult};
use crate::traits::{Movable, Position};
use crate::ui::{LogLine, UI};
use crate::units::{Unit, UnitView};

verus! {

/// The square of the distance from which a unit no longer attacks but
/// approaches: 2 tiles.
pub const MELEE_RANGE_SQR: i64 = 4;

/// What a unit does with its turn.
#[derive(Debug, Copy, Clone, PartialEq, Eq, Structural)]
pub enum TurnPlan {
    /// Nothing.
    Wait,
    /// It takes a step towards the player.
    Approach,
    /// It attacks the player.
    Attack,
}

/// What a unit does with its turn: nothing while its tile is out of the
/// player's sight; else it approaches the player from 2 tiles away or
/// more, and attacks from nearer, unless the player is dead.
pub open spec fn turn_plan(map: &GameMap, unit: UnitView, player: UnitView) -> TurnPlan {
    if !map.visible_at(unit.position) {
        TurnPlan::Wait
    } else if sqr_distance(unit.position, player.position) >= MELEE_RANGE_SQR {
        TurnPlan::Approach
    } else if player.hp > 0 {
        TurnPlan::Attack
    } else {
        TurnPlan::Wait
    }
}

/// What a unit's turn comes to: the unit and the player after it, and what
/// the log is told.
pub struct TurnOutcome {
    pub unit: UnitView,
    pub player: UnitView,
    pub messages: Seq<LogLine>,
}

/// What the turn of `unit` comes to, where `path` is what a search for a
/// path from the unit to the player found.
///
/// A unit that approaches takes the step that `step_towards` gives, if that
/// is a tile of the map that a unit can stand on, and else stays. A unit
/// that attacks leaves the player as `attacked` says and tells the log.
pub open spec fn turn_outcome(
    map: &GameMap,
    unit: UnitView,
    player: UnitView,
    path: PathResult,
) -> TurnOutcome {
    match turn_plan(map, unit, player) {
        TurnPlan::Wait => TurnOutcome { unit, player, messages: Seq::empty() },
        TurnPlan::Approach => {
            let step = step_towards(unit.position, path, player.position);
            TurnOutcome {
                unit: if map.is_open(step) {
                    UnitView { position: step, ..unit }
                } else {
                    unit
                },
                player,
                messages: Seq::empty(),
            }
        },
        TurnPlan::Attack => TurnOutcome {
            unit,
            player: unit.attacked(player),
            messages: seq![unit.attack_line(player)],
        },
    }
}

impl<'a> Unit<'a> {
    /// What this unit does with its turn. Only a unit that approaches needs
    /// a path searched for it.
    pub fn plan_turn(&self, map: &GameMap, player: &Unit) -> (plan: TurnPlan)
        requires
            map.wf(),
        ensures
            plan == turn_plan(map, self@, player@),
    {
        if !map.point_in_fov(self.get_position()) {
            return TurnPlan::Wait;
        }
        let dx: i64 = self.position.x as i64 - player.position.x as i64;
        let dy: i64 = self.position.y as i64 - player.position.y as i64;
        assert(0 <= dx * dx <= 65535 * 65535 && 0 <= dy * dy <= 65535 * 65535) by (nonlinear_arith)
            requires
                -65535 <= dx <= 65535,
                -65535 <= dy <= 65535,
        ;
        if dx * dx + dy * dy >= MELEE_RANGE_SQR {
            TurnPlan::Approach
        } else if player.get_hp() > 0 {
            TurnPlan::Attack
        } else {
            TurnPlan::Wait
        }
    }

    /// Takes this unit's turn, with `path` for what a search for a path from
    /// the unit to the player found. The path is not looked at unless the
    /// unit approaches.
    pub fn take_turn(&mut self, map: &GameMap, ui: &mut UI, path: &PathResult, player: &mut Unit)
        requires
            map.wf(),
            map.in_map(old(self)@.position),
            map.in_map(old(player)@.position),
        ensures
            final(self)@ == turn_outcome(map, old(self)@, old(player)@, *path).unit,
            final(player)@ == turn_outcome(map, old(self)@, old(player)@, *path).player,
            final(ui).shows_all(
                old(ui),
                turn_outcome(map, old(self)@, old(player)@, *path).messages,
            ),
    {
        match self.plan_turn(map, player) {
            TurnPlan::Wait => {},
            TurnPlan::Approach => {
                let new_pos = self.get_step_towards(path, player.get_position());
                if map.tile_is_open(new_pos) {
                    self.move_to(new_pos);
                }
            },
            TurnPlan::Attack => {
                self.attack(player, ui);
            },
        }
    }
}

} // verus!

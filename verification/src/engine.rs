//! The turns of the game: what the player's request comes to, and the turns of
//! the other units after it.

use vstd::prelude::*;
use rand::ThreadRng;
use std::collections::VecDeque;

use crate::color::Color;
use crate::direction::Direction;
use crate::dungeon::{all_placed, is_placed};
use crate::fov::cell_of;
use crate::item::{Item, ItemView};
use crate::map::{CanMoveResponse, GameMap, TileType};
use crate::pathing::{blocked_cell, unit_views, PathQuery, PathResult};
use crate::point::Point;
use crate::rectangle::Rectangle;
use crate::text::{death_message, death_text, player_death_message};
use crate::traits::{Movable, Position, Renderable};
use crate::turn::{turn_outcome, turn_plan, TurnPlan};
use crate::ui::{LogLine, UI};
use crate::unit_type::UnitTypeLists;
use crate::units::{Unit, UnitView};

verus! {

/// How far the player sees.
pub const FOV_RADIUS: u8 = 10;

/// The width of the screen, in tiles.
pub const SCREEN_WIDTH: u8 = 80;

/// The height of the screen, in tiles.
pub const SCREEN_HEIGHT: u8 = 50;

/// The height of the panel at the bottom of the screen.
pub const PANEL_HEIGHT: u8 = 5;

/// The row of the screen at which the panel begins.
pub const PANEL_Y: u8 = SCREEN_HEIGHT - PANEL_HEIGHT;

/// What the game is doing.
#[derive(Debug, Copy, Clone, PartialEq, Eq, Structural)]
pub enum GameState {
    /// The player and the other units take their turns.
    Playing,
    /// The player is dead; nothing moves until a new game is asked for.
    Dead,
    /// A new dungeon has been asked for.
    NewMap,
    Menu,
    /// The game is over.
    Exit,
}

/// What the player did with their turn.
#[derive(Debug, Copy, Clone, PartialEq, Eq, Structural)]
pub enum PlayerAction {
    /// The player stepped onto another tile.
    Moved,
    /// The player spent their turn without moving: on an attack.
    Turn,
    /// The player did nothing that takes a turn.
    NoTurn,
}

/// What the player asks for.
#[derive(Debug, Copy, Clone, PartialEq, Eq, Structural)]
pub enum KeyType {
    Movement(Direction),
    Exit,
    NewGame,
    Other,
}

/// The items as what they are.
pub open spec fn item_views(items: Seq<Item>) -> Seq<ItemView> {
    Seq::new(items.len(), |i: int| items[i]@)
}

/// What is left of a unit that died.
pub open spec fn corpse_of(unit: UnitView) -> ItemView {
    ItemView {
        name: unit.kind.name,
        glyph: unit.kind.glyph,
        color: Color::spec_dark_red(),
        position: unit.position,
    }
}

/// The place in `npcs` of the first unit that stands at `p`, or the length
/// of `npcs` if none does.
pub open spec fn first_at(npcs: Seq<UnitView>, p: Point) -> int
    decreases npcs.len(),
{
    if npcs.len() == 0 {
        0
    } else if npcs[0].position == p {
        0
    } else {
        1 + first_at(npcs.drop_first(), p)
    }
}

/// `first_at` is a place of `npcs` at which a unit stands at `p`, before
/// which none does; or it is the length of `npcs`, and no unit stands at `p`.
pub proof fn lemma_first_at(npcs: Seq<UnitView>, p: Point)
    ensures
        0 <= first_at(npcs, p) <= npcs.len(),
        first_at(npcs, p) < npcs.len() ==> npcs[first_at(npcs, p)].position == p,
        forall|k: int| 0 <= k < first_at(npcs, p) ==> (#[trigger] npcs[k]).position != p,
    decreases npcs.len(),
{
    if npcs.len() > 0 && npcs[0].position != p {
        let rest = npcs.drop_first();
        lemma_first_at(rest, p);
        assert forall|k: int| 0 <= k < first_at(npcs, p) implies (#[trigger] npcs[k]).position
            != p by {
            if k > 0 {
                assert(rest[k - 1] == npcs[k]);
            }
        }
    }
}

/// The units stand on tiles of the map that a unit can stand on, and have
/// no more hit points than their kinds allow.
pub open spec fn roster_ok(map: &GameMap, npcs: Seq<UnitView>) -> bool {
    forall|i: int|
        0 <= i < npcs.len() ==> (#[trigger] npcs[i]).wf() && map.is_open(npcs[i].position)
}

/// The state of the game is sound: the map is well-formed and walled in,
/// and the player and all other units stand on tiles that a unit can stand
/// on, with no more hit points than their kinds allow.
pub open spec fn world_ok(map: &GameMap, npcs: Seq<UnitView>, player: UnitView) -> bool {
    &&& map.wf()
    &&& map.is_enclosed()
    &&& player.wf()
    &&& map.is_open(player.position)
    &&& roster_ok(map, npcs)
}

/// Whether the state of the game is sound.
pub fn world_is_ok(map: &GameMap, npcs: &VecDeque<Unit>, player: &Unit) -> (b: bool)
    requires
        map.wf(),
    ensures
        b == world_ok(map, unit_views(npcs@), player@),
{
    if !map.check_enclosed() {
        return false;
    }
    if player.get_hp() > player.unit_type.get_max_hp() || !map.tile_is_open(player.get_position()) {
        return false;
    }
    let ghost views = unit_views(npcs@);
    let mut i: usize = 0;
    while i < npcs.len()
        invariant
            i <= npcs.len(),
            map.wf(),
            views == unit_views(npcs@),
            forall|k: int|
                0 <= k < i ==> (#[trigger] views[k]).wf() && map.is_open(views[k].position),
        decreases npcs.len() - i,
    {
        let npc = &npcs[i];
        if npc.get_hp() > npc.unit_type.get_max_hp() || !map.tile_is_open(npc.get_position()) {
            proof {
                assert(views[i as int] == npcs@[i as int]@);
            }
            return false;
        }
        proof {
            assert(views[i as int] == npcs@[i as int]@);
        }
        i += 1;
    }
    true
}

/// What the player's request comes to: what the player did, the state of
/// the game, the units and the player after it, and what the log is told.
pub struct InputOutcome {
    pub action: PlayerAction,
    pub state: GameState,
    pub npcs: Seq<UnitView>,
    pub player: UnitView,
    pub messages: Seq<LogLine>,
}

/// What the player's request comes to.
///
/// A step is taken only while the game is `Playing`. A step onto a wall
/// is no step, and takes no turn. A step onto a tile on which a unit
/// stands is an attack on the first such unit of the roster, and takes a
/// turn. Any other step moves the player. A request to leave or for a new
/// game changes the state and nothing else.
pub open spec fn input_outcome(
    state: GameState,
    key: KeyType,
    map: &GameMap,
    npcs: Seq<UnitView>,
    player: UnitView,
) -> InputOutcome {
    let idle = InputOutcome {
        action: PlayerAction::NoTurn,
        state,
        npcs,
        player,
        messages: Seq::empty(),
    };
    match key {
        KeyType::Movement(dir) => {
            let target = player.position.plus(dir.rel_point());
            let at = first_at(npcs, target);
            if state != GameState::Playing {
                idle
            } else if map.move_response(target) == CanMoveResponse::Scenery {
                idle
            } else if at < npcs.len() {
                InputOutcome {
                    action: PlayerAction::Turn,
                    state,
                    npcs: npcs.update(at, player.attacked(npcs[at])),
                    player,
                    messages: seq![player.attack_line(npcs[at])],
                }
            } else {
                InputOutcome {
                    action: PlayerAction::Moved,
                    state,
                    npcs,
                    player: UnitView { position: target, ..player },
                    messages: Seq::empty(),
                }
            }
        },
        KeyType::Exit => InputOutcome { state: GameState::Exit, ..idle },
        KeyType::NewGame => InputOutcome { state: GameState::NewMap, ..idle },
        KeyType::Other => idle,
    }
}

/// The place in `npcs` of the first unit that stands at `p`, if there is
/// one.
fn find_unit_at(npcs: &VecDeque<Unit>, p: Point) -> (found: Option<usize>)
    ensures
        match found {
            Some(i) => i == first_at(unit_views(npcs@), p) && i < npcs@.len(),
            None => first_at(unit_views(npcs@), p) == npcs@.len(),
        },
{
    let ghost views = unit_views(npcs@);
    proof {
        lemma_first_at(views, p);
    }
    let mut i: usize = 0;
    while i < npcs.len()
        invariant
            i <= npcs.len(),
            views == unit_views(npcs@),
            forall|k: int| 0 <= k < i ==> (#[trigger] views[k]).position != p,
            0 <= first_at(views, p) <= views.len(),
            first_at(views, p) < views.len() ==> views[first_at(views, p)].position == p,
            forall|k: int| 0 <= k < first_at(views, p) ==> (#[trigger] views[k]).position != p,
        decreases npcs.len() - i,
    {
        if npcs[i].get_position() == p {
            proof {
                assert(views[i as int].position == p);
                let f = first_at(views, p);
                if f < i {
                    assert(views[f].position != p);
                }
            }
            return Some(i);
        }
        i += 1;
    }
    proof {
        let f = first_at(views, p);
        if f < views.len() {
            assert(views[f].position != p);
        }
    }
    None
}

/// Carries out what the player asks for with `key`, and returns what the
/// player did and the state of the game after it.
#[verifier::rlimit(40)]
pub fn handle_input<'a>(
    cur_game_state: GameState,
    key: KeyType,
    map: &GameMap,
    ui: &mut UI,
    npcs: &mut VecDeque<Unit<'a>>,
    player: &mut Unit<'a>,
) -> (r: (PlayerAction, GameState))
    requires
        world_ok(map, unit_views(old(npcs)@), old(player)@),
    ensures
        r.0 == input_outcome(cur_game_state, key, map, unit_views(old(npcs)@), old(player)@).action,
        r.1 == input_outcome(cur_game_state, key, map, unit_views(old(npcs)@), old(player)@).state,
        unit_views(final(npcs)@) == input_outcome(
            cur_game_state,
            key,
            map,
            unit_views(old(npcs)@),
            old(player)@,
        ).npcs,
        final(player)@ == input_outcome(
            cur_game_state,
            key,
            map,
            unit_views(old(npcs)@),
            old(player)@,
        ).player,
        final(ui).shows_all(
            old(ui),
            input_outcome(cur_game_state, key, map, unit_views(old(npcs)@), old(player)@).messages,
        ),
        world_ok(map, unit_views(final(npcs)@), final(player)@),
{
    let mut player_action = PlayerAction::NoTurn;
    let mut new_game_state = cur_game_state;
    let ghost views = unit_views(npcs@);
    match key {
        KeyType::Movement(dir) => {
            if cur_game_state == GameState::Playing {
                let pos = player.get_position();
                proof {
                    map.lemma_open_inside(pos);
                }
                let new_pos = pos + dir.to_rel_point();
                match map.can_move_to(new_pos) {
                    CanMoveResponse::Open => {
                        match find_unit_at(npcs, new_pos) {
                            Some(i) => {
                                let mut enemy = match npcs.remove(i) {
                                    Some(enemy) => enemy,
                                    None => {
                                        proof {
                                            assert(false);
                                        }
                                        return (player_action, new_game_state);
                                    },
                                };
                                proof {
                                    assert(enemy@ == views[i as int]);
                                    assert(views[i as int].wf());
                                }
                                player.attack(&mut enemy, ui);
                                npcs.insert(i, enemy);
                                player_action = PlayerAction::Turn;
                                proof {
                                    assert(unit_views(npcs@) =~= views.update(
                                        i as int,
                                        player@.attacked(views[i as int]),
                                    ));
                                    assert forall|k: int| 0 <= k < npcs@.len() implies (
                                    #[trigger] unit_views(npcs@)[k]).wf() && map.is_open(
                                        unit_views(npcs@)[k].position,
                                    ) by {
                                        assert(views[k].wf() && map.is_open(views[k].position));
                                    }
                                }
                            },
                            None => {
                                player.move_to(new_pos);
                                player_action = PlayerAction::Moved;
                            },
                        }
                    },
                    CanMoveResponse::Scenery => {},
                }
            }
        },
        KeyType::Exit => {
            new_game_state = GameState::Exit;
        },
        KeyType::NewGame => {
            new_game_state = GameState::NewMap;
        },
        KeyType::Other => {},
    }
    (player_action, new_game_state)
}

/// The part of the game that the other units' turns bear on: the roster,
/// the player, the items on the map, and what the log has been told since
/// the turns began.
pub struct World {
    pub npcs: Seq<UnitView>,
    pub player: UnitView,
    pub items: Seq<ItemView>,
    pub messages: Seq<LogLine>,
}

/// How a run of the other units' turns ends.
pub enum PhaseEnd {
    /// The unit at the head of the roster approaches the player and needs a
    /// path searched before it can go on.
    NeedPath,
    /// All turns are taken, or the player died: the game goes on in the
    /// given state.
    Done(GameState),
}

/// What a run of the other units' turns comes to: the world after it, how
/// many units of the roster have not had their turn, and how the run ends.
pub struct PhaseOutcome {
    pub world: World,
    pub remaining: nat,
    pub end: PhaseEnd,
}

/// The path that stands in for one that was not searched.
pub open spec fn no_path() -> PathResult {
    PathResult { is_empty: true, len: 0, next: None }
}

/// What the turns of the first `remaining` units of the roster come to,
/// where `path` is what a search for the unit at the head found, if one was
/// made.
///
/// The unit at the head is taken off the roster. A unit without hit points
/// leaves a corpse and a message, and is gone. Any other takes its turn, as
/// `turn_outcome` says, and goes to the end of the roster; but where it
/// approaches the player and no path has been searched, the run stops
/// before that turn, to be taken up with the path. Where a turn leaves the
/// player without hit points the run ends at once: the player leaves a
/// corpse and a message, the unit that struck is gone from the roster, the
/// units behind it do not get their turn, and the game is `Dead`.
pub open spec fn phase_outcome(
    map: &GameMap,
    world: World,
    remaining: nat,
    path: Option<PathResult>,
) -> PhaseOutcome
    decreases remaining,
{
    if remaining == 0 || world.npcs.len() == 0 {
        PhaseOutcome { world, remaining, end: PhaseEnd::Done(GameState::Playing) }
    } else {
        let enemy = world.npcs[0];
        let rest = world.npcs.drop_first();
        if enemy.hp == 0 {
            phase_outcome(
                map,
                World {
                    npcs: rest,
                    items: world.items.push(corpse_of(enemy)),
                    messages: world.messages.push(
                        (death_message(enemy.kind.name), Color::spec_white()),
                    ),
                    ..world
                },
                (remaining - 1) as nat,
                path,
            )
        } else if turn_plan(map, enemy, world.player) == TurnPlan::Approach && path.is_none() {
            PhaseOutcome { world, remaining, end: PhaseEnd::NeedPath }
        } else {
            let out = turn_outcome(
                map,
                enemy,
                world.player,
                if path.is_some() {
                    path.unwrap()
                } else {
                    no_path()
                },
            );
            if out.player.hp == 0 {
                PhaseOutcome {
                    world: World {
                        npcs: rest,
                        player: out.player,
                        items: world.items.push(corpse_of(out.player)),
                        messages: (world.messages + out.messages).push(
                            (player_death_message(), Color::spec_light_red()),
                        ),
                    },
                    remaining: (remaining - 1) as nat,
                    end: PhaseEnd::Done(GameState::Dead),
                }
            } else {
                phase_outcome(
                    map,
                    World {
                        npcs: rest.push(out.unit),
                        player: out.player,
                        items: world.items,
                        messages: world.messages + out.messages,
                    },
                    (remaining - 1) as nat,
                    None,
                )
            }
        }
    }
}

/// What a run of the other units' turns hands back.
pub enum PhaseStep {
    /// The run stopped before the turn of the unit at the head of the
    /// roster: `query` is the search that the unit needs, and `remaining`
    /// the number of units that have not had their turn, that unit
    /// included.
    NeedPath { query: PathQuery, remaining: usize },
    /// The run is over, and the game goes on in the given state.
    Done(GameState),
}

/// `query` is the search for the way of the unit at the head of the roster
/// to the player: over the grid of the map, with the other units of the
/// roster marked on it.
pub open spec fn is_query_for(query: PathQuery, map: &GameMap, world: World) -> bool {
    &&& world.npcs.len() >= 1
    &&& query.from == world.npcs[0].position
    &&& query.to == world.player.position
    &&& query.map.wf()
    &&& query.map.width() == map.width()
    &&& query.map.height() == map.height()
    &&& forall|p: Point|
        map.in_map(p) ==> #[trigger] query.map.cell_at(p) == blocked_cell(
            cell_of(map.tile_at(p)),
            world.npcs.drop_first(),
            p,
        )
}

/// `step` is what a run hands back that comes to `out` on the map `map`, and
/// `world` is the world that the run leaves behind.
pub open spec fn is_phase_step(
    step: PhaseStep,
    map: &GameMap,
    out: PhaseOutcome,
    world: World,
) -> bool {
    &&& world == out.world
    &&& match step {
        PhaseStep::NeedPath { query, remaining } => {
            &&& out.end == PhaseEnd::NeedPath
            &&& remaining == out.remaining
            &&& 1 <= remaining <= world.npcs.len()
            &&& is_query_for(query, map, out.world)
        },
        PhaseStep::Done(state) => out.end == PhaseEnd::Done(state),
    }
}

/// The world as the state of the game has it at the start of a run.
pub open spec fn world_of(map: &GameMap, npcs: Seq<Unit>, player: UnitView) -> World {
    World {
        npcs: unit_views(npcs),
        player,
        items: item_views(map.items()),
        messages: Seq::empty(),
    }
}

/// Runs the turns of the first `remaining` units of the roster, as
/// `phase_outcome` says, until all are taken, the player dies, or a unit
/// needs a path searched. In that case the caller makes the search and
/// calls again, with its outcome for `path` and with the `remaining` that
/// was handed back.
#[verifier::rlimit(40)]
pub fn npc_phase<'a>(
    map: &mut GameMap,
    ui: &mut UI,
    npcs: &mut VecDeque<Unit<'a>>,
    player: &mut Unit<'a>,
    remaining: usize,
    path: Option<PathResult>,
) -> (step: PhaseStep)
    requires
        world_ok(old(map), unit_views(old(npcs)@), old(player)@),
        remaining <= old(npcs)@.len(),
    ensures
        final(map).tiles() == old(map).tiles(),
        final(map).width() == old(map).width(),
        final(map).height() == old(map).height(),
        is_phase_step(
            step,
            old(map),
            phase_outcome(
                old(map),
                world_of(old(map), old(npcs)@, old(player)@),
                remaining as nat,
                path,
            ),
            World {
                npcs: unit_views(final(npcs)@),
                player: final(player)@,
                items: item_views(final(map).items()),
                messages: phase_outcome(
                    old(map),
                    world_of(old(map), old(npcs)@, old(player)@),
                    remaining as nat,
                    path,
                ).world.messages,
            },
        ),
        final(ui).shows_all(
            old(ui),
            phase_outcome(
                old(map),
                world_of(old(map), old(npcs)@, old(player)@),
                remaining as nat,
                path,
            ).world.messages,
        ),
        world_ok(final(map), unit_views(final(npcs)@), final(player)@),
        step matches PhaseStep::Done(state) ==> state == GameState::Playing || state
            == GameState::Dead,
{
    let ghost units = remaining;
    let ghost search = path;
    let mut remaining = remaining;
    let mut path = path;
    let ghost start = world_of(old(map), old(npcs)@, old(player)@);
    let ghost goal = phase_outcome(old(map), start, remaining as nat, path);
    let ghost mut w = start;
    let mut step = PhaseStep::Done(GameState::Playing);
    proof {
        assert(ui.shows_all(old(ui), w.messages));
    }
    while remaining > 0
        invariant_except_break
            remaining <= npcs@.len(),
            unit_views(npcs@) == w.npcs,
            player@ == w.player,
            item_views(map.items()) == w.items,
            ui.shows_all(old(ui), w.messages),
            world_ok(map, w.npcs, w.player),
            phase_outcome(old(map), w, remaining as nat, path) == goal,
            step == PhaseStep::Done(GameState::Playing),
        invariant
            map.tiles() == old(map).tiles(),
            map.width() == old(map).width(),
            map.height() == old(map).height(),
        ensures
            is_phase_step(
                step,
                old(map),
                goal,
                World {
                    npcs: unit_views(npcs@),
                    player: player@,
                    items: item_views(map.items()),
                    messages: goal.world.messages,
                },
            ),
            ui.shows_all(old(ui), goal.world.messages),
            world_ok(map, unit_views(npcs@), player@),
            step matches PhaseStep::Done(state) ==> state == GameState::Playing || state
                == GameState::Dead,
        decreases remaining,
    {
        let ghost before = w;
        let ghost ui_before = *ui;
        let ghost views = unit_views(npcs@);
        let mut enemy = match npcs.pop_front() {
            Some(enemy) => enemy,
            None => {
                proof {
                    assert(false);
                }
                break ;
            },
        };
        proof {
            assert(enemy@ == views[0]);
            assert(unit_views(npcs@) =~= views.drop_first());
            assert(views[0].wf() && map.is_open(views[0].position));
            assert forall|k: int| 0 <= k < npcs@.len() implies (#[trigger] unit_views(
                npcs@,
            )[k]).wf() && map.is_open(unit_views(npcs@)[k].position) by {
                assert(views[k + 1].wf() && map.is_open(views[k + 1].position));
            }
        }
        if enemy.get_hp() > 0 {
            let plan = enemy.plan_turn(map, player);
            proof {
                assert(plan == turn_plan(old(map), enemy@, player@));
            }
            if path.is_none() && plan == TurnPlan::Approach {
                proof {
                    assert forall|k: int| 0 <= k < npcs@.len() implies map.in_map(
                        (#[trigger] unit_views(npcs@)[k]).position,
                    ) by {
                        assert(map.is_open(unit_views(npcs@)[k].position));
                    }
                }
                let query = enemy.get_path_query(map, npcs, player.get_position());
                npcs.push_front(enemy);
                proof {
                    assert(unit_views(npcs@) =~= views);
                    assert forall|p: Point| old(map).in_map(p) implies #[trigger] query.map.cell_at(
                        p,
                    ) == blocked_cell(cell_of(old(map).tile_at(p)), w.npcs.drop_first(), p) by {
                        assert(map.in_map(p));
                        assert(map.tile_at(p) == old(map).tile_at(p));
                    }
                    assert(w.npcs[0] == views[0]);
                    assert(goal == (PhaseOutcome {
                        world: w,
                        remaining: remaining as nat,
                        end: PhaseEnd::NeedPath,
                    }));
                }
                step = PhaseStep::NeedPath { query, remaining };
                break ;
            }
            let usable: PathResult = match path {
                Some(found) => found,
                None => PathResult { is_empty: true, len: 0, next: None },
            };
            let ghost searched = path;
            path = None;
            let ghost mover = enemy@;
            let ghost struck = player@;
            proof {
                map.lemma_open_inside(mover.position);
            }
            enemy.take_turn(map, ui, &usable, player);
            let ghost out = turn_outcome(old(map), mover, struck, usable);
            proof {
                assert(out == turn_outcome(map, mover, struck, usable));
                assert(enemy@ == out.unit);
                assert(player@ == out.player);
                lemma_turn_keeps_ok(map, mover, struck, usable);
                assert(w.npcs[0] == mover);
                assert(usable == if searched.is_some() {
                    searched.unwrap()
                } else {
                    no_path()
                });
                ui.lemma_shows_more(old(ui), &ui_before, before.messages, out.messages);
            }
            if player.get_hp() == 0 {
                let ghost ui_between = *ui;
                ui.add_message("You died!", Color::light_red());
                let corpse = Item::new(
                    player.get_name(),
                    player.get_glyph(),
                    Color::dark_red(),
                    player.get_position(),
                );
                let ghost map_before = *map;
                map.place_item(corpse);
                proof {
                    assert(goal == (PhaseOutcome {
                        world: World {
                            npcs: before.npcs.drop_first(),
                            player: out.player,
                            items: before.items.push(corpse_of(out.player)),
                            messages: (before.messages + out.messages).push(
                                (player_death_message(), Color::spec_light_red()),
                            ),
                        },
                        remaining: (remaining - 1) as nat,
                        end: PhaseEnd::Done(GameState::Dead),
                    }));
                    ui.lemma_shows_more(
                        old(ui),
                        &ui_between,
                        before.messages + out.messages,
                        seq![(player_death_message(), Color::spec_light_red())],
                    );
                    assert((before.messages + out.messages) + seq![
                        (player_death_message(), Color::spec_light_red()),
                    ] =~= (before.messages + out.messages).push(
                        (player_death_message(), Color::spec_light_red()),
                    ));
                    assert(item_views(map.items()) =~= before.items.push(corpse_of(out.player)));
                    lemma_same_tiles_ok(&map_before, &*map, unit_views(npcs@), player@);
                }
                step = PhaseStep::Done(GameState::Dead);
                break ;
            }
            npcs.push_back(enemy);
            proof {
                w = World {
                    npcs: before.npcs.drop_first().push(out.unit),
                    player: out.player,
                    items: before.items,
                    messages: before.messages + out.messages,
                };
                assert(unit_views(npcs@) =~= w.npcs);
                assert forall|k: int| 0 <= k < w.npcs.len() implies (#[trigger] w.npcs[k]).wf()
                    && map.is_open(w.npcs[k].position) by {
                    if k < w.npcs.len() - 1 {
                        assert(views[k + 1].wf() && map.is_open(views[k + 1].position));
                    }
                }
            }
        } else {
            let corpse = Item::new(
                enemy.get_name(),
                enemy.get_glyph(),
                Color::dark_red(),
                enemy.get_position(),
            );
            let ghost map_before = *map;
            map.place_item(corpse);
            let text = death_text(enemy.get_name());
            ui.add_message(text.as_str(), Color::white());
            proof {
                w = World {
                    npcs: before.npcs.drop_first(),
                    items: before.items.push(corpse_of(enemy@)),
                    messages: before.messages.push(
                        (death_message(enemy@.kind.name), Color::spec_white()),
                    ),
                    ..before
                };
                ui.lemma_shows_more(
                    old(ui),
                    &ui_before,
                    before.messages,
                    seq![(death_message(enemy@.kind.name), Color::spec_white())],
                );
                assert(before.messages + seq![
                    (death_message(enemy@.kind.name), Color::spec_white()),
                ] =~= w.messages);
                assert(item_views(map.items()) =~= w.items);
                lemma_same_tiles_ok(&map_before, &*map, w.npcs, w.player);
            }
        }
        remaining -= 1;
    }
    step
}

/// Begins the turns of the other units: each unit that is on the roster now
/// gets one turn, as `npc_phase` says, with no path searched yet.
pub fn start_npc_phase<'a>(
    map: &mut GameMap,
    ui: &mut UI,
    npcs: &mut VecDeque<Unit<'a>>,
    player: &mut Unit<'a>,
) -> (step: PhaseStep)
    requires
        world_ok(old(map), unit_views(old(npcs)@), old(player)@),
    ensures
        final(map).tiles() == old(map).tiles(),
        final(map).width() == old(map).width(),
        final(map).height() == old(map).height(),
        is_phase_step(
            step,
            old(map),
            phase_outcome(
                old(map),
                world_of(old(map), old(npcs)@, old(player)@),
                old(npcs)@.len(),
                None,
            ),
            World {
                npcs: unit_views(final(npcs)@),
                player: final(player)@,
                items: item_views(final(map).items()),
                messages: phase_outcome(
                    old(map),
                    world_of(old(map), old(npcs)@, old(player)@),
                    old(npcs)@.len(),
                    None,
                ).world.messages,
            },
        ),
        final(ui).shows_all(
            old(ui),
            phase_outcome(
                old(map),
                world_of(old(map), old(npcs)@, old(player)@),
                old(npcs)@.len(),
                None,
            ).world.messages,
        ),
        world_ok(final(map), unit_views(final(npcs)@), final(player)@),
        step matches PhaseStep::Done(state) ==> state == GameState::Playing || state
            == GameState::Dead,
{
    let turns = npcs.len();
    npc_phase(map, ui, npcs, player, turns, None)
}

/// A unit's turn leaves the unit and the player on tiles that a unit can
/// stand on, the player where it was, and neither with more hit points than
/// its kind allows.
pub proof fn lemma_turn_keeps_ok(map: &GameMap, unit: UnitView, player: UnitView, path: PathResult)
    requires
        unit.wf(),
        player.wf(),
        map.is_open(unit.position),
        map.is_open(player.position),
    ensures
        turn_outcome(map, unit, player, path).unit.wf(),
        turn_outcome(map, unit, player, path).player.wf(),
        map.is_open(turn_outcome(map, unit, player, path).unit.position),
        turn_outcome(map, unit, player, path).player.position == player.position,
        turn_outcome(map, unit, player, path).player.hp <= player.hp,
        turn_outcome(map, unit, player, path).unit.hp == unit.hp,
{
}

/// A sound state stays sound through a field-of-view pass.
pub proof fn lemma_fov_keeps_ok(
    before: &GameMap,
    after: &GameMap,
    in_fov: Seq<bool>,
    npcs: Seq<UnitView>,
    player: UnitView,
)
    requires
        world_ok(before, npcs, player),
        after.is_seen_from(before, in_fov),
    ensures
        world_ok(after, npcs, player),
{
    crate::map::lemma_seen_wf(*before, *after, in_fov);
    assert forall|p: Point| before.in_map(p) implies #[trigger] after.tile_at(p).tile_type
        == before.tile_at(p).tile_type by {
        crate::map::lemma_update_fov_explores(*before, *after, in_fov, p);
    }
    assert forall|p: Point|
        #![trigger after.tile_at(p)]
        after.in_map(p) && (p.x == 0 || p.y == 0 || p.x == after.width() - 1 || p.y
            == after.height() - 1) implies after.type_at(p) == TileType::Wall by {
        assert(before.tile_at(p).tile_type == TileType::Wall);
    }
    assert forall|i: int| 0 <= i < npcs.len() implies (#[trigger] npcs[i]).wf() && after.is_open(
        npcs[i].position,
    ) by {
        assert(before.is_open(npcs[i].position));
    }
}

/// A sound state stays sound on a map that differs by its items only.
pub proof fn lemma_same_tiles_ok(
    before: &GameMap,
    after: &GameMap,
    npcs: Seq<UnitView>,
    player: UnitView,
)
    requires
        world_ok(before, npcs, player),
        after.tiles() == before.tiles(),
        after.width() == before.width(),
        after.height() == before.height(),
    ensures
        world_ok(after, npcs, player),
{
    assert forall|p: Point|
        #![trigger after.tile_at(p)]
        after.in_map(p) && (p.x == 0 || p.y == 0 || p.x == after.width() - 1 || p.y
            == after.height() - 1) implies after.type_at(p) == TileType::Wall by {
        assert(before.tile_at(p) == after.tile_at(p));
    }
    assert forall|i: int| 0 <= i < npcs.len() implies (#[trigger] npcs[i]).wf() && after.is_open(
        npcs[i].position,
    ) by {
        assert(before.is_open(npcs[i].position));
    }
}

/// The part of the map that the screen shows when the player stands at
/// `player`: a window of the screen's width and of its height less the
/// panel, with the player in the middle.
pub open spec fn centred_view(player: Point) -> Rectangle {
    Rectangle {
        top_left: Point {
            x: (player.x - SCREEN_WIDTH / 2) as i16,
            y: (player.y - SCREEN_HEIGHT / 2) as i16,
        },
        bottom_right: Point {
            x: (player.x - SCREEN_WIDTH / 2 + SCREEN_WIDTH) as i16,
            y: (player.y - SCREEN_HEIGHT / 2 + (SCREEN_HEIGHT - PANEL_HEIGHT)) as i16,
        },
    }
}

/// The part of a map of size `map_size` that the screen shows when the
/// player stands at `player`: the window with the player in the middle,
/// pushed back into the map where it would show what lies beyond.
pub fn view_port(player: Point, map_size: (u8, u8)) -> (view: Rectangle)
    requires
        0 <= player.x <= u8::MAX,
        0 <= player.y <= u8::MAX,
    ensures
        view == centred_view(player).clamped((0, 0), (map_size.0 as i16, map_size.1 as i16)),
        view.extent() == (SCREEN_WIDTH as int, (SCREEN_HEIGHT - PANEL_HEIGHT) as int),
{
    let (map_width, map_height) = map_size;
    let draw_left: i16 = player.x - SCREEN_WIDTH as i16 / 2;
    let draw_top: i16 = player.y - SCREEN_HEIGHT as i16 / 2;
    let mut view = Rectangle::new(
        Point { x: draw_left, y: draw_top },
        (SCREEN_WIDTH, SCREEN_HEIGHT - PANEL_HEIGHT),
    );
    view.clamp_to((0, 0), (map_width as i16, map_height as i16));
    view
}

/// What comes after the player's request.
#[derive(Debug, Copy, Clone, PartialEq, Eq, Structural)]
pub enum NextPhase {
    /// The game ends.
    Quit,
    /// A new dungeon is made, and the game is `Playing` again.
    NewMap,
    /// The other units take their turns.
    NpcPhase,
    /// Nothing: the player is asked again.
    Idle,
}

/// What comes after the player's request: the game ends on `Exit`, a new
/// dungeon is made on `NewMap`, and the other units take their turns where
/// the game is `Playing` and the player has spent a turn.
pub open spec fn next_phase(state: GameState, action: PlayerAction) -> NextPhase {
    match (state, action) {
        (GameState::Exit, _) => NextPhase::Quit,
        (GameState::NewMap, _) => NextPhase::NewMap,
        (GameState::Playing, PlayerAction::Moved) => NextPhase::NpcPhase,
        (GameState::Playing, PlayerAction::Turn) => NextPhase::NpcPhase,
        _ => NextPhase::Idle,
    }
}

/// What comes after the player's request.
pub fn after_input(state: GameState, action: PlayerAction) -> (next: NextPhase)
    ensures
        next == next_phase(state, action),
{
    match (state, action) {
        (GameState::Exit, _) => NextPhase::Quit,
        (GameState::NewMap, _) => NextPhase::NewMap,
        (GameState::Playing, PlayerAction::Moved) => NextPhase::NpcPhase,
        (GameState::Playing, PlayerAction::Turn) => NextPhase::NpcPhase,
        _ => NextPhase::Idle,
    }
}

/// Whether the field of view has to be computed anew after what the player
/// did: only a step moves the eye.
pub fn needs_fov(action: PlayerAction) -> (b: bool)
    ensures
        b == (action == PlayerAction::Moved),
{
    action == PlayerAction::Moved
}

/// Puts the player at the start of a new dungeon, with all the hit points
/// of its kind.
pub fn enter_new_map(player: &mut Unit, start: Point)
    ensures
        final(player)@ == (UnitView {
            position: start,
            hp: old(player)@.kind.max_hp,
            ..old(player)@
        }),
        final(player)@.wf(),
{
    player.move_to(start);
    player.heal(255);
}

/// Makes a new dungeon with its units, and puts the player at its start
/// with all the hit points of its kind.
///
/// Whatever the random source yields, the state of the game is sound
/// afterwards, the map is a dungeon as `is_dungeon` says, with the player
/// at the centre of its first room, and every unit is as `is_placed` says.
pub fn new_map<'a>(
    unit_types: &'a UnitTypeLists,
    rng: &mut ThreadRng,
    player: &mut Unit,
) -> (r: (GameMap, VecDeque<Unit<'a>>))
    requires
        unit_types.wf(),
    ensures
        world_ok(&r.0, unit_views(r.1@), final(player)@),
        final(player)@ == (UnitView {
            position: final(player)@.position,
            hp: old(player)@.kind.max_hp,
            ..old(player)@
        }),
        exists|rooms: Seq<Rectangle>, flips: Seq<bool>|
            {
                &&& #[trigger] r.0.is_dungeon(rooms, flips)
                &&& final(player)@.position == rooms[0].spec_centre()
                &&& all_placed(unit_views(r.1@), rooms, unit_types)
            },
{
    let (map, npcs, start) = GameMap::init(unit_types, rng);
    enter_new_map(player, start);
    proof {
        let (rooms, flips) = choose|rooms: Seq<Rectangle>, flips: Seq<bool>|
            {
                &&& #[trigger] map.is_dungeon(rooms, flips)
                &&& start == rooms[0].spec_centre()
                &&& all_placed(unit_views(npcs@), rooms, unit_types)
            };
        map.lemma_dungeon_rooms(rooms, flips);
        map.lemma_dungeon_floor(rooms, flips);
        map.lemma_centres_are_floor(rooms, flips, 0);
        assert forall|i: int| 0 <= i < npcs@.len() implies (#[trigger] unit_views(npcs@)[i]).wf()
            && map.is_open(unit_views(npcs@)[i].position) by {
            let unit = unit_views(npcs@)[i];
            assert(is_placed(unit, rooms, unit_types));
            let at = choose|at: int|
                0 <= at < rooms.len() && (#[trigger] rooms[at]).contains_inner(unit.position);
            map.lemma_room_floor(rooms, flips, at);
            assert(rooms[at].inner_tiles().contains(unit.position));
        }
    }
    (map, npcs)
}

/// A step onto a wall changes nothing: the player stays, no unit is
/// touched, the log is told nothing, the state of the game is as before, and
/// the other units do not get their turn.
pub proof fn lemma_wall_stops_player(
    state: GameState,
    dir: Direction,
    map: &GameMap,
    npcs: Seq<UnitView>,
    player: UnitView,
)
    requires
        map.in_map(player.position.plus(dir.rel_point())),
        map.type_at(player.position.plus(dir.rel_point())) == TileType::Wall,
    ensures
        input_outcome(state, KeyType::Movement(dir), map, npcs, player) == (InputOutcome {
            action: PlayerAction::NoTurn,
            state,
            npcs,
            player,
            messages: Seq::empty(),
        }),
        next_phase(state, PlayerAction::NoTurn) != NextPhase::NpcPhase,
{
}

/// The other units get their turn only after the player has spent one, and
/// only while the game is `Playing`.
pub proof fn lemma_npc_phase_needs_turn(state: GameState, action: PlayerAction)
    ensures
        next_phase(state, action) == NextPhase::NpcPhase <==> state == GameState::Playing && action
            != PlayerAction::NoTurn,
{
}

/// Of a run of the other units' turns:
/// - the units that have not had their turn are as they were, and stand at
///   the head of the roster in their old order;
/// - the run ends with the game `Dead` exactly if it leaves the player
///   without hit points, given that the player had some;
/// - a run that ends with the game `Playing` has given every unit its turn;
/// - a run that stops for a path does so before the turn of a living unit
///   that approaches the player.
#[verifier::rlimit(40)]
pub proof fn lemma_phase_outcome(
    map: &GameMap,
    world: World,
    remaining: nat,
    path: Option<PathResult>,
)
    requires
        remaining <= world.npcs.len(),
        world.player.hp > 0,
    ensures
        ({
            let out = phase_outcome(map, world, remaining, path);
            &&& out.remaining <= remaining
            &&& out.remaining <= out.world.npcs.len()
            &&& forall|j: int|
                0 <= j < out.remaining ==> #[trigger] out.world.npcs[j] == world.npcs[remaining
                    - out.remaining + j]
            &&& out.end == PhaseEnd::Done(GameState::Dead) <==> out.world.player.hp == 0
            &&& out.end == PhaseEnd::Done(GameState::Playing) ==> out.remaining == 0
            &&& out.end == PhaseEnd::NeedPath ==> out.remaining > 0 && out.world.npcs[0].hp > 0
                && turn_plan(map, out.world.npcs[0], out.world.player) == TurnPlan::Approach
            &&& out.end != PhaseEnd::Done(GameState::NewMap) && out.end != PhaseEnd::Done(
                GameState::Menu,
            ) && out.end != PhaseEnd::Done(GameState::Exit)
        }),
    decreases remaining,
{
    if remaining == 0 || world.npcs.len() == 0 {
    } else {
        let enemy = world.npcs[0];
        let rest = world.npcs.drop_first();
        if enemy.hp == 0 {
            let next = World {
                npcs: rest,
                items: world.items.push(corpse_of(enemy)),
                messages: world.messages.push(
                    (death_message(enemy.kind.name), Color::spec_white()),
                ),
                ..world
            };
            lemma_phase_outcome(map, next, (remaining - 1) as nat, path);
            let out = phase_outcome(map, world, remaining, path);
            assert forall|j: int| 0 <= j < out.remaining implies #[trigger] out.world.npcs[j]
                == world.npcs[remaining - out.remaining + j] by {
                assert(out.world.npcs[j] == rest[remaining - 1 - out.remaining + j]);
            }
        } else if turn_plan(map, enemy, world.player) == TurnPlan::Approach && path.is_none() {
        } else {
            let out = turn_outcome(
                map,
                enemy,
                world.player,
                if path.is_some() {
                    path.unwrap()
                } else {
                    no_path()
                },
            );
            if out.player.hp == 0 {
                let end = phase_outcome(map, world, remaining, path);
                assert forall|j: int| 0 <= j < end.remaining implies #[trigger] end.world.npcs[j]
                    == world.npcs[remaining - end.remaining + j] by {
                    assert(end.world.npcs[j] == rest[j]);
                }
            } else {
                let next = World {
                    npcs: rest.push(out.unit),
                    player: out.player,
                    items: world.items,
                    messages: world.messages + out.messages,
                };
                lemma_phase_outcome(map, next, (remaining - 1) as nat, None);
                let end = phase_outcome(map, world, remaining, path);
                assert forall|j: int| 0 <= j < end.remaining implies #[trigger] end.world.npcs[j]
                    == world.npcs[remaining - end.remaining + j] by {
                    let at = remaining - 1 - end.remaining + j;
                    assert(end.world.npcs[j] == next.npcs[at]);
                    assert(next.npcs[at] == rest[at]);
                }
            }
        }
    }
}

/// Once a unit's turn leaves the player without hit points the run is over:
/// the game is `Dead`, the player leaves a corpse, the log is told, and
/// the units behind that unit are neither moved nor given their turn.
pub proof fn lemma_death_ends_phase(
    map: &GameMap,
    world: World,
    remaining: nat,
    path: PathResult,
)
    requires
        0 < remaining <= world.npcs.len(),
        world.npcs[0].hp > 0,
        turn_outcome(map, world.npcs[0], world.player, path).player.hp == 0,
    ensures
        ({
            let out = phase_outcome(map, world, remaining, Some(path));
            let turn = turn_outcome(map, world.npcs[0], world.player, path);
            &&& out.end == PhaseEnd::Done(GameState::Dead)
            &&& out.world.npcs == world.npcs.drop_first()
            &&& out.world.player == turn.player
            &&& out.world.items == world.items.push(corpse_of(turn.player))
            &&& out.world.messages == (world.messages + turn.messages).push(
                (player_death_message(), Color::spec_light_red()),
            )
        }),
{
}

} // verus!

use std::collections::VecDeque;

use roguelike::color::Color;
use roguelike::direction::Direction;
use roguelike::engine::{
    after_input, enter_new_map, handle_input, needs_fov, new_map, npc_phase, start_npc_phase,
    view_port, world_is_ok, GameState, KeyType, NextPhase, PhaseStep, PlayerAction, FOV_RADIUS,
    PANEL_HEIGHT, PANEL_Y, SCREEN_HEIGHT, SCREEN_WIDTH,
};
use roguelike::map::{GameMap, TileType};
use roguelike::pathing::PathResult;
use roguelike::point::Point;
use roguelike::rectangle::Rectangle;
use roguelike::traits::{Position, Renderable};
use roguelike::turn::TurnPlan;
use roguelike::ui::UI;
use roguelike::unit_type::{UnitType, UnitTypeLists, UnitTypeRaw};
use roguelike::units::Unit;

fn kind(name: &str, max_hp: u8, defence: u8, attack: u8) -> UnitType {
    UnitType {
        name: name.to_string(),
        glyph: name.chars().next().unwrap(),
        color: Color::new(9, 9, 9),
        is_blocking: true,
        max_hp,
        defence,
        attack,
    }
}

/// A hall of 10 by 6 tiles of floor, walled in, on a map of 14 by 9; all
/// of it in sight if `lit`.
fn hall(lit: bool) -> GameMap {
    let mut map = GameMap::new(14, 9);
    map.create_room(&Rectangle::new(Point::new(1, 1), (11, 7))).unwrap();
    map.update_fov(&vec![lit; 14 * 9]);
    map
}

fn panel() -> UI {
    UI::new(Point::new(0, 45), 80, 5, 30)
}

fn texts(ui: &UI) -> Vec<String> {
    let log = ui.get_message_box();
    (0..log.len()).map(|i| log.line(i).0.to_string()).collect()
}

fn positions(npcs: &VecDeque<Unit>) -> Vec<Point> {
    npcs.iter().map(|n| n.get_position()).collect()
}

fn names(npcs: &VecDeque<Unit>) -> Vec<String> {
    npcs.iter().map(|n| n.get_name().to_string()).collect()
}

#[test]
fn screen_constants() {
    assert_eq!((SCREEN_WIDTH, SCREEN_HEIGHT, PANEL_HEIGHT, PANEL_Y), (80, 50, 5, 45));
    assert_eq!(FOV_RADIUS, 10);
}

#[test]
fn unit_out_of_sight_waits() {
    let map = hall(false);
    let orc = kind("Orc", 10, 0, 4);
    let human = kind("Player", 30, 3, 5);
    let npc = Unit::new(Point::new(3, 3), &orc);
    let player = Unit::new(Point::new(4, 3), &human);
    assert_eq!(npc.plan_turn(&map, &player), TurnPlan::Wait);
}

#[test]
fn unit_in_sight_approaches_from_two_tiles_and_attacks_from_nearer() {
    let map = hall(true);
    let orc = kind("Orc", 10, 0, 4);
    let human = kind("Player", 30, 3, 5);
    let player = Unit::new(Point::new(5, 4), &human);
    let plan = |x: i16, y: i16| Unit::new(Point::new(x, y), &orc).plan_turn(&map, &player);
    assert_eq!(plan(6, 4), TurnPlan::Attack);
    assert_eq!(plan(6, 5), TurnPlan::Attack);
    assert_eq!(plan(5, 3), TurnPlan::Attack);
    assert_eq!(plan(7, 4), TurnPlan::Approach);
    assert_eq!(plan(5, 2), TurnPlan::Approach);
    assert_eq!(plan(7, 5), TurnPlan::Approach);
    assert_eq!(plan(10, 6), TurnPlan::Approach);
}

#[test]
fn unit_does_not_attack_a_dead_player() {
    let map = hall(true);
    let orc = kind("Orc", 10, 0, 4);
    let human = kind("Player", 30, 3, 5);
    let mut player = Unit::new(Point::new(5, 4), &human);
    player.take_damage(255);
    let npc = Unit::new(Point::new(6, 4), &orc);
    assert_eq!(npc.plan_turn(&map, &player), TurnPlan::Wait);
}

#[test]
fn turn_of_a_unit_that_approaches_follows_the_path() {
    let map = hall(true);
    let orc = kind("Orc", 10, 0, 4);
    let human = kind("Player", 30, 3, 5);
    let mut player = Unit::new(Point::new(9, 4), &human);
    let mut npc = Unit::new(Point::new(3, 4), &orc);
    let mut ui = panel();
    let path = PathResult { is_empty: false, len: 6, next: Some(Point::new(3, 5)) };
    npc.take_turn(&map, &mut ui, &path, &mut player);
    assert_eq!(npc.get_position(), Point::new(3, 5));
    assert_eq!(player.get_hp(), 30);
    assert!(texts(&ui).is_empty());
    let none = PathResult { is_empty: true, len: 0, next: None };
    npc.take_turn(&map, &mut ui, &none, &mut player);
    assert_eq!(npc.get_position(), Point::new(4, 5));
}

#[test]
fn unit_does_not_step_into_a_wall_or_off_the_map() {
    let map = hall(true);
    let orc = kind("Orc", 10, 0, 4);
    let human = kind("Player", 30, 3, 5);
    let mut player = Unit::new(Point::new(9, 4), &human);
    let mut npc = Unit::new(Point::new(3, 2), &orc);
    let mut ui = panel();
    let into_wall = PathResult { is_empty: false, len: 6, next: Some(Point::new(3, 1)) };
    npc.take_turn(&map, &mut ui, &into_wall, &mut player);
    assert_eq!(npc.get_position(), Point::new(3, 2));
    let off_map = PathResult { is_empty: false, len: 6, next: Some(Point::new(3, -1)) };
    npc.take_turn(&map, &mut ui, &off_map, &mut player);
    assert_eq!(npc.get_position(), Point::new(3, 2));
}

#[test]
fn turn_of_a_unit_beside_the_player_is_an_attack() {
    let map = hall(true);
    let orc = kind("Orc", 10, 0, 7);
    let human = kind("Player", 30, 3, 5);
    let mut player = Unit::new(Point::new(5, 4), &human);
    let mut npc = Unit::new(Point::new(6, 5), &orc);
    let mut ui = panel();
    let path = PathResult { is_empty: false, len: 1, next: Some(Point::new(5, 5)) };
    npc.take_turn(&map, &mut ui, &path, &mut player);
    assert_eq!(npc.get_position(), Point::new(6, 5));
    assert_eq!(player.get_hp(), 26);
    assert_eq!(texts(&ui), vec!["Orc attacks Player for 4 damage."]);
}

#[test]
fn step_into_a_wall_changes_nothing_and_takes_no_turn() {
    let map = hall(true);
    let orc = kind("Orc", 10, 0, 4);
    let human = kind("Player", 30, 3, 5);
    let mut player = Unit::new(Point::new(1 + 1, 1 + 1), &human);
    let mut npcs = VecDeque::new();
    npcs.push_back(Unit::new(Point::new(8, 5), &orc));
    let mut ui = panel();
    for dir in [Direction::Up, Direction::Left] {
        let (action, state) = handle_input(
            GameState::Playing,
            KeyType::Movement(dir),
            &map,
            &mut ui,
            &mut npcs,
            &mut player,
        );
        assert_eq!(action, PlayerAction::NoTurn);
        assert_eq!(state, GameState::Playing);
        assert_eq!(player.get_position(), Point::new(2, 2));
        assert_eq!(player.get_hp(), 30);
        assert_eq!(positions(&npcs), vec![Point::new(8, 5)]);
        assert_eq!(npcs[0].get_hp(), 10);
        assert!(texts(&ui).is_empty());
        assert_eq!(after_input(state, action), NextPhase::Idle);
        assert!(!needs_fov(action));
    }
}

#[test]
fn step_onto_open_floor_moves_the_player() {
    let map = hall(true);
    let human = kind("Player", 30, 3, 5);
    let mut player = Unit::new(Point::new(2, 2), &human);
    let mut npcs = VecDeque::new();
    let mut ui = panel();
    let (action, state) = handle_input(
        GameState::Playing,
        KeyType::Movement(Direction::Right),
        &map,
        &mut ui,
        &mut npcs,
        &mut player,
    );
    assert_eq!((action, state), (PlayerAction::Moved, GameState::Playing));
    assert_eq!(player.get_position(), Point::new(3, 2));
    assert!(needs_fov(action));
    assert_eq!(after_input(state, action), NextPhase::NpcPhase);
    let (action, _) = handle_input(
        GameState::Playing,
        KeyType::Movement(Direction::Down),
        &map,
        &mut ui,
        &mut npcs,
        &mut player,
    );
    assert_eq!(action, PlayerAction::Moved);
    assert_eq!(player.get_position(), Point::new(3, 3));
}

#[test]
fn step_onto_a_unit_is_an_attack_on_the_first_unit_there() {
    let map = hall(true);
    let orc = kind("Orc", 10, 1, 4);
    let rat = kind("Rat", 3, 0, 1);
    let human = kind("Player", 30, 3, 5);
    let mut player = Unit::new(Point::new(2, 2), &human);
    let mut npcs = VecDeque::new();
    npcs.push_back(Unit::new(Point::new(8, 5), &rat));
    npcs.push_back(Unit::new(Point::new(3, 2), &orc));
    npcs.push_back(Unit::new(Point::new(3, 2), &rat));
    let mut ui = panel();
    let (action, state) = handle_input(
        GameState::Playing,
        KeyType::Movement(Direction::Right),
        &map,
        &mut ui,
        &mut npcs,
        &mut player,
    );
    assert_eq!((action, state), (PlayerAction::Turn, GameState::Playing));
    assert_eq!(player.get_position(), Point::new(2, 2));
    assert_eq!(names(&npcs), vec!["Rat", "Orc", "Rat"]);
    assert_eq!(npcs[0].get_hp(), 3);
    assert_eq!(npcs[1].get_hp(), 6);
    assert_eq!(npcs[2].get_hp(), 3);
    assert_eq!(texts(&ui), vec!["Player attacks Orc for 4 damage."]);
    assert!(!needs_fov(action));
    assert_eq!(after_input(state, action), NextPhase::NpcPhase);
}

#[test]
fn nothing_moves_unless_the_game_is_playing() {
    let map = hall(true);
    let human = kind("Player", 30, 3, 5);
    let mut npcs = VecDeque::new();
    let mut ui = panel();
    for state in [GameState::Dead, GameState::Menu, GameState::NewMap, GameState::Exit] {
        let mut player = Unit::new(Point::new(2, 2), &human);
        let got = handle_input(
            state,
            KeyType::Movement(Direction::Right),
            &map,
            &mut ui,
            &mut npcs,
            &mut player,
        );
        assert_eq!(got, (PlayerAction::NoTurn, state));
        assert_eq!(player.get_position(), Point::new(2, 2));
    }
}

#[test]
fn requests_to_leave_and_for_a_new_game_change_the_state_only() {
    let map = hall(true);
    let human = kind("Player", 30, 3, 5);
    let mut player = Unit::new(Point::new(2, 2), &human);
    let mut npcs = VecDeque::new();
    let mut ui = panel();
    for state in [GameState::Playing, GameState::Dead] {
        assert_eq!(
            handle_input(state, KeyType::Exit, &map, &mut ui, &mut npcs, &mut player),
            (PlayerAction::NoTurn, GameState::Exit)
        );
        assert_eq!(
            handle_input(state, KeyType::NewGame, &map, &mut ui, &mut npcs, &mut player),
            (PlayerAction::NoTurn, GameState::NewMap)
        );
        assert_eq!(
            handle_input(state, KeyType::Other, &map, &mut ui, &mut npcs, &mut player),
            (PlayerAction::NoTurn, state)
        );
    }
    assert_eq!(player.get_position(), Point::new(2, 2));
    assert!(texts(&ui).is_empty());
}

#[test]
fn what_comes_after_the_request() {
    for action in [PlayerAction::Moved, PlayerAction::Turn, PlayerAction::NoTurn] {
        assert_eq!(after_input(GameState::Exit, action), NextPhase::Quit);
        assert_eq!(after_input(GameState::NewMap, action), NextPhase::NewMap);
        assert_eq!(after_input(GameState::Dead, action), NextPhase::Idle);
        assert_eq!(after_input(GameState::Menu, action), NextPhase::Idle);
    }
    assert_eq!(after_input(GameState::Playing, PlayerAction::Moved), NextPhase::NpcPhase);
    assert_eq!(after_input(GameState::Playing, PlayerAction::Turn), NextPhase::NpcPhase);
    assert_eq!(after_input(GameState::Playing, PlayerAction::NoTurn), NextPhase::Idle);
}

#[test]
fn dead_unit_leaves_a_corpse_and_is_gone() {
    let mut map = hall(true);
    let orc = kind("Orc", 10, 0, 4);
    let human = kind("Player", 30, 3, 5);
    let mut player = Unit::new(Point::new(2, 2), &human);
    let mut npcs = VecDeque::new();
    let mut dead = Unit::new(Point::new(3, 2), &orc);
    dead.take_damage(10);
    npcs.push_back(dead);
    let mut ui = panel();
    let step = npc_phase(&mut map, &mut ui, &mut npcs, &mut player, 1, None);
    assert!(matches!(step, PhaseStep::Done(GameState::Playing)));
    assert!(npcs.is_empty());
    assert_eq!(player.get_hp(), 30);
    assert_eq!(texts(&ui), vec!["Orc is dead!"]);
    assert_eq!(ui.get_message_box().line(0).1, Color::white());
    let items = map.get_items();
    assert_eq!(items.len(), 1);
    assert_eq!(items[0].name, "Orc");
    assert_eq!(items[0].get_glyph(), 'O');
    assert_eq!(items[0].get_color(), Color::dark_red());
    assert_eq!(items[0].get_position(), Point::new(3, 2));
}

#[test]
fn units_take_their_turns_in_order_and_keep_it() {
    let mut map = hall(true);
    let orc = kind("Orc", 10, 0, 4);
    let rat = kind("Rat", 3, 0, 5);
    let human = kind("Player", 30, 3, 5);
    let mut player = Unit::new(Point::new(5, 4), &human);
    let mut npcs = VecDeque::new();
    npcs.push_back(Unit::new(Point::new(6, 4), &orc));
    npcs.push_back(Unit::new(Point::new(4, 4), &rat));
    npcs.push_back(Unit::new(Point::new(5, 5), &orc));
    let mut ui = panel();
    let step = npc_phase(&mut map, &mut ui, &mut npcs, &mut player, 3, None);
    assert!(matches!(step, PhaseStep::Done(GameState::Playing)));
    assert_eq!(names(&npcs), vec!["Orc", "Rat", "Orc"]);
    assert_eq!(
        positions(&npcs),
        vec![Point::new(6, 4), Point::new(4, 4), Point::new(5, 5)]
    );
    assert_eq!(player.get_hp(), 30 - 1 - 2 - 1);
    assert_eq!(
        texts(&ui),
        vec![
            "Orc attacks Player for 1 damage.",
            "Rat attacks Player for 2 damage.",
            "Orc attacks Player for 1 damage.",
        ]
    );
    assert!(map.get_items().is_empty());
}

#[test]
fn death_of_the_player_ends_the_turns_at_once() {
    let mut map = hall(true);
    let ogre = kind("Ogre", 20, 0, 12);
    let rat = kind("Rat", 3, 0, 5);
    let human = kind("Player", 30, 3, 5);
    let mut player = Unit::new(Point::new(5, 4), &human);
    player.take_damage(25);
    let mut npcs = VecDeque::new();
    npcs.push_back(Unit::new(Point::new(4, 4), &rat));
    npcs.push_back(Unit::new(Point::new(6, 4), &ogre));
    npcs.push_back(Unit::new(Point::new(5, 5), &rat));
    npcs.push_back(Unit::new(Point::new(9, 6), &rat));
    let mut ui = panel();
    let step = npc_phase(&mut map, &mut ui, &mut npcs, &mut player, 4, None);
    assert!(matches!(step, PhaseStep::Done(GameState::Dead)));
    assert_eq!(player.get_hp(), 0);
    // The two units behind the ogre have neither struck nor moved; the rat
    // that struck first is back at the end of the roster.
    assert_eq!(names(&npcs), vec!["Rat", "Rat", "Rat"]);
    assert_eq!(
        positions(&npcs),
        vec![Point::new(5, 5), Point::new(9, 6), Point::new(4, 4)]
    );
    assert_eq!(
        texts(&ui),
        vec![
            "Rat attacks Player for 2 damage.",
            "Ogre attacks Player for 9 damage.",
            "You died!",
        ]
    );
    assert_eq!(ui.get_message_box().line(2).1, Color::light_red());
    let items = map.get_items();
    assert_eq!(items.len(), 1);
    assert_eq!(items[0].name, "Player");
    assert_eq!(items[0].get_position(), Point::new(5, 4));
    assert_eq!(items[0].get_color(), Color::dark_red());
}

#[test]
fn unit_that_approaches_waits_for_its_path() {
    let mut map = hall(true);
    let orc = kind("Orc", 10, 0, 4);
    let rat = kind("Rat", 3, 0, 5);
    let human = kind("Player", 30, 3, 5);
    let mut player = Unit::new(Point::new(2, 2), &human);
    let mut npcs = VecDeque::new();
    npcs.push_back(Unit::new(Point::new(3, 2), &rat));
    npcs.push_back(Unit::new(Point::new(8, 2), &orc));
    npcs.push_back(Unit::new(Point::new(8, 5), &rat));
    let mut ui = panel();
    let step = npc_phase(&mut map, &mut ui, &mut npcs, &mut player, 3, None);
    let remaining = match step {
        PhaseStep::NeedPath { query, remaining } => {
            assert_eq!(query.from, Point::new(8, 2));
            assert_eq!(query.to, Point::new(2, 2));
            // The others are in the way, the unit itself is not.
            assert!(query.map.is_walkable(Point::new(8, 2)));
            assert!(!query.map.is_walkable(Point::new(8, 5)));
            assert!(!query.map.is_walkable(Point::new(3, 2)));
            assert!(query.map.is_walkable(Point::new(7, 2)));
            remaining
        }
        PhaseStep::Done(_) => panic!("the orc needs a path"),
    };
    assert_eq!(remaining, 2);
    assert_eq!(player.get_hp(), 28);
    assert_eq!(names(&npcs), vec!["Orc", "Rat", "Rat"]);
    assert_eq!(positions(&npcs), vec![Point::new(8, 2), Point::new(8, 5), Point::new(3, 2)]);

    let path = PathResult { is_empty: false, len: 6, next: Some(Point::new(7, 2)) };
    let step = npc_phase(&mut map, &mut ui, &mut npcs, &mut player, remaining, Some(path));
    let remaining = match step {
        PhaseStep::NeedPath { query, remaining } => {
            assert_eq!(query.from, Point::new(8, 5));
            assert!(!query.map.is_walkable(Point::new(7, 2)));
            assert!(query.map.is_walkable(Point::new(8, 2)));
            remaining
        }
        PhaseStep::Done(_) => panic!("the rat needs a path"),
    };
    assert_eq!(remaining, 1);
    assert_eq!(positions(&npcs), vec![Point::new(8, 5), Point::new(3, 2), Point::new(7, 2)]);

    let none = PathResult { is_empty: true, len: 0, next: None };
    let step = npc_phase(&mut map, &mut ui, &mut npcs, &mut player, remaining, Some(none));
    assert!(matches!(step, PhaseStep::Done(GameState::Playing)));
    assert_eq!(names(&npcs), vec!["Rat", "Orc", "Rat"]);
    assert_eq!(positions(&npcs), vec![Point::new(3, 2), Point::new(7, 2), Point::new(7, 5)]);
    assert_eq!(texts(&ui), vec!["Rat attacks Player for 2 damage."]);
}

#[test]
fn every_unit_on_the_roster_gets_one_turn() {
    let mut map = hall(true);
    let orc = kind("Orc", 10, 0, 4);
    let human = kind("Player", 30, 3, 5);
    let mut player = Unit::new(Point::new(5, 4), &human);
    let mut npcs = VecDeque::new();
    npcs.push_back(Unit::new(Point::new(6, 4), &orc));
    npcs.push_back(Unit::new(Point::new(4, 4), &orc));
    let mut ui = panel();
    let step = start_npc_phase(&mut map, &mut ui, &mut npcs, &mut player);
    assert!(matches!(step, PhaseStep::Done(GameState::Playing)));
    assert_eq!(player.get_hp(), 28);
    assert_eq!(positions(&npcs), vec![Point::new(6, 4), Point::new(4, 4)]);
    assert_eq!(texts(&ui).len(), 2);
}

#[test]
fn units_out_of_sight_do_nothing() {
    let mut map = hall(false);
    let orc = kind("Orc", 10, 0, 9);
    let human = kind("Player", 30, 3, 5);
    let mut player = Unit::new(Point::new(2, 2), &human);
    let mut npcs = VecDeque::new();
    npcs.push_back(Unit::new(Point::new(3, 2), &orc));
    npcs.push_back(Unit::new(Point::new(9, 5), &orc));
    let mut ui = panel();
    let step = npc_phase(&mut map, &mut ui, &mut npcs, &mut player, 2, None);
    assert!(matches!(step, PhaseStep::Done(GameState::Playing)));
    assert_eq!(player.get_hp(), 30);
    assert_eq!(positions(&npcs), vec![Point::new(3, 2), Point::new(9, 5)]);
    assert!(texts(&ui).is_empty());
}

#[test]
fn run_of_no_turns_is_over_at_once() {
    let mut map = hall(true);
    let orc = kind("Orc", 10, 0, 9);
    let human = kind("Player", 30, 3, 5);
    let mut player = Unit::new(Point::new(2, 2), &human);
    let mut npcs = VecDeque::new();
    npcs.push_back(Unit::new(Point::new(3, 2), &orc));
    let mut ui = panel();
    let step = npc_phase(&mut map, &mut ui, &mut npcs, &mut player, 0, None);
    assert!(matches!(step, PhaseStep::Done(GameState::Playing)));
    assert_eq!(player.get_hp(), 30);
    let mut none = VecDeque::new();
    let step = npc_phase(&mut map, &mut ui, &mut none, &mut player, 0, None);
    assert!(matches!(step, PhaseStep::Done(GameState::Playing)));
}

#[test]
fn state_is_sound_while_all_stand_on_the_floor_of_a_walled_map() {
    let map = hall(true);
    let orc = kind("Orc", 10, 0, 4);
    let human = kind("Player", 30, 3, 5);
    let player = Unit::new(Point::new(2, 2), &human);
    let mut npcs = VecDeque::new();
    npcs.push_back(Unit::new(Point::new(8, 5), &orc));
    assert!(map.check_enclosed());
    assert!(world_is_ok(&map, &npcs, &player));

    let in_wall = Unit::new(Point::new(1, 1), &human);
    assert!(!world_is_ok(&map, &npcs, &in_wall));
    let off_map = Unit::new(Point::new(-3, 2), &human);
    assert!(!world_is_ok(&map, &npcs, &off_map));

    npcs.push_back(Unit::new(Point::new(0, 5), &orc));
    assert!(!world_is_ok(&map, &npcs, &player));
    npcs.pop_back();

    let mut strong = Unit::new(Point::new(3, 3), &orc);
    strong.cur_hp = 11;
    npcs.push_back(strong);
    assert!(!world_is_ok(&map, &npcs, &player));
    npcs.pop_back();

    let mut open = hall(true);
    open.set_tile_type(Point::new(13, 4), TileType::Floor).unwrap();
    assert!(!open.check_enclosed());
    assert!(!world_is_ok(&open, &npcs, &player));
    let mut open = hall(true);
    open.set_tile_type(Point::new(5, 0), TileType::Floor).unwrap();
    assert!(!open.check_enclosed());
}

#[test]
fn player_enters_a_new_map_healed() {
    let human = kind("Player", 30, 3, 5);
    let mut player = Unit::new(Point::new(2, 2), &human);
    player.take_damage(29);
    enter_new_map(&mut player, Point::new(40, 20));
    assert_eq!(player.get_position(), Point::new(40, 20));
    assert_eq!(player.get_hp(), 30);
    assert_eq!(player.get_name(), "Player");
}

#[test]
fn new_map_is_sound() {
    let raw = vec![UnitTypeRaw {
        name: "Rat".to_string(),
        glyph: 'r',
        color: [120, 80, 40],
        chance: 3,
        is_blocking: true,
        max_hp: 4,
        defence: 0,
        attack: 2,
    }];
    let types = UnitTypeLists::from_raw(&raw).unwrap();
    let human = kind("Player", 30, 3, 5);
    let mut rng = rand::thread_rng();
    for _ in 0..10 {
        let mut player = Unit::new(Point::new(0, 0), &human);
        player.take_damage(12);
        let (map, npcs) = new_map(&types, &mut rng, &mut player);
        assert_eq!(player.get_hp(), 30);
        assert_eq!(map.get_tile_type(player.get_position()), Ok(TileType::Floor));
        for npc in &npcs {
            assert_eq!(map.get_tile_type(npc.get_position()), Ok(TileType::Floor));
            assert_eq!(npc.get_hp(), 4);
        }
    }
}

#[test]
fn screen_shows_the_player_in_the_middle_where_the_map_allows() {
    let view = view_port(Point::new(100, 100), (200, 200));
    assert_eq!(view.top_left, Point::new(60, 75));
    assert_eq!(view.bottom_right, Point::new(140, 120));
    let view = view_port(Point::new(5, 3), (200, 200));
    assert_eq!(view.top_left, Point::new(0, 0));
    assert_eq!(view.bottom_right, Point::new(80, 45));
    let view = view_port(Point::new(195, 190), (200, 200));
    assert_eq!(view.top_left, Point::new(120, 155));
    assert_eq!(view.bottom_right, Point::new(200, 200));
}

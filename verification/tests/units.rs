use roguelike::color::Color;
use roguelike::direction::Direction;
use roguelike::point::Point;
use roguelike::text::{attack_text, death_text, no_effect_text, push_decimal};
use roguelike::traits::{Movable, Position, Renderable};
use roguelike::ui::UI;
use roguelike::unit_type::UnitType;
use roguelike::units::{AttackResult, Unit};

fn kind(name: &str, max_hp: u8, defence: u8, attack: u8) -> UnitType {
    UnitType {
        name: name.to_string(),
        glyph: 'x',
        color: Color::new(1, 2, 3),
        is_blocking: true,
        max_hp,
        defence,
        attack,
    }
}

fn panel() -> UI {
    UI::new(Point::new(0, 45), 80, 5, 30)
}

fn lines(ui: &UI) -> Vec<(String, Color)> {
    let log = ui.get_message_box();
    (0..log.len()).map(|i| (log.line(i).0.to_string(), log.line(i).1)).collect()
}

#[test]
fn attack_that_gets_through_leaves_the_target_alive() {
    let strong = kind("Knight", 30, 0, 5);
    let weak = kind("Thief", 10, 3, 0);
    let attacker = Unit::new(Point::new(1, 1), &strong);
    let mut target = Unit::new(Point::new(1, 2), &weak);
    let mut ui = panel();
    assert_eq!(attacker.attack(&mut target, &mut ui), AttackResult::Alive);
    assert_eq!(target.get_hp(), 8);
    assert_eq!(
        lines(&ui),
        vec![("Knight attacks Thief for 2 damage.".to_string(), Color::yellow())]
    );
}

#[test]
fn attack_below_the_defence_has_no_effect() {
    let weak = kind("Thief", 30, 0, 3);
    let armoured = kind("Knight", 10, 5, 0);
    let attacker = Unit::new(Point::new(1, 1), &weak);
    let mut target = Unit::new(Point::new(1, 2), &armoured);
    let mut ui = panel();
    assert_eq!(attacker.attack(&mut target, &mut ui), AttackResult::NoEffect);
    assert_eq!(target.get_hp(), 10);
    assert_eq!(
        lines(&ui),
        vec![("Thief attacks Knight, but it has no effect!".to_string(), Color::white())]
    );
}

#[test]
fn attack_for_more_than_is_left_kills() {
    let strong = kind("Ogre", 30, 0, 10);
    let frail = kind("Rat", 4, 0, 0);
    let attacker = Unit::new(Point::new(1, 1), &strong);
    let mut target = Unit::new(Point::new(1, 2), &frail);
    let mut ui = panel();
    assert_eq!(attacker.attack(&mut target, &mut ui), AttackResult::Dead);
    assert_eq!(target.get_hp(), 0);
    assert_eq!(lines(&ui), vec![("Ogre attacks Rat for 10 damage.".to_string(), Color::yellow())]);
}

#[test]
fn attack_for_just_what_is_left_leaves_none_and_counts_as_alive() {
    let strong = kind("Ogre", 30, 0, 7);
    let frail = kind("Rat", 4, 3, 0);
    let attacker = Unit::new(Point::new(1, 1), &strong);
    let mut target = Unit::new(Point::new(1, 2), &frail);
    let mut ui = panel();
    assert_eq!(attacker.attack(&mut target, &mut ui), AttackResult::Alive);
    assert_eq!(target.get_hp(), 0);
}

#[test]
fn attack_that_equals_the_defence_does_no_damage() {
    let even = kind("Twin", 9, 4, 4);
    let attacker = Unit::new(Point::new(1, 1), &even);
    let mut target = Unit::new(Point::new(1, 2), &even);
    let mut ui = panel();
    assert_eq!(attacker.attack(&mut target, &mut ui), AttackResult::Alive);
    assert_eq!(target.get_hp(), 9);
    assert_eq!(lines(&ui), vec![("Twin attacks Twin for 0 damage.".to_string(), Color::yellow())]);
}

#[test]
fn attack_changes_nothing_but_the_hit_points() {
    let strong = kind("Knight", 30, 0, 5);
    let weak = kind("Thief", 10, 3, 0);
    let attacker = Unit::new(Point::new(1, 1), &strong);
    let mut target = Unit::new(Point::new(4, 2), &weak);
    let mut ui = panel();
    attacker.attack(&mut target, &mut ui);
    assert_eq!(target.get_position(), Point::new(4, 2));
    assert_eq!(target.get_name(), "Thief");
    assert_eq!(attacker.get_hp(), 30);
    assert_eq!(attacker.get_position(), Point::new(1, 1));
}

#[test]
fn damage_is_taken_as_far_as_hit_points_are_left() {
    let t = kind("Rat", 10, 0, 0);
    let mut unit = Unit::new(Point::new(0, 0), &t);
    assert_eq!(unit.take_damage(3), AttackResult::Alive);
    assert_eq!(unit.get_hp(), 7);
    assert_eq!(unit.take_damage(0), AttackResult::Alive);
    assert_eq!(unit.get_hp(), 7);
    assert_eq!(unit.take_damage(7), AttackResult::Alive);
    assert_eq!(unit.get_hp(), 0);
    assert_eq!(unit.take_damage(1), AttackResult::Dead);
    assert_eq!(unit.get_hp(), 0);
    let mut other = Unit::new(Point::new(0, 0), &t);
    assert_eq!(other.take_damage(255), AttackResult::Dead);
    assert_eq!(other.get_hp(), 0);
}

#[test]
fn heal_sets_the_hit_points_up_to_the_maximum() {
    let t = kind("Rat", 10, 0, 0);
    let mut unit = Unit::new(Point::new(0, 0), &t);
    unit.take_damage(8);
    unit.heal(5);
    assert_eq!(unit.get_hp(), 5);
    unit.heal(255);
    assert_eq!(unit.get_hp(), 10);
    unit.heal(0);
    assert_eq!(unit.get_hp(), 0);
}

#[test]
fn new_unit_has_all_hit_points_of_its_kind() {
    let t = UnitType::new("Player", '@', Color::white());
    let unit = Unit::new(Point::new(3, 9), &t);
    assert_eq!(unit.get_hp(), 30);
    assert_eq!(unit.get_name(), "Player");
    assert_eq!(unit.get_glyph(), '@');
    assert_eq!(unit.get_color(), Color::new(255, 255, 255));
    assert!(unit.is_blocking());
    assert_eq!(unit.get_position(), Point::new(3, 9));
    assert_eq!(unit.get_x(), 3);
    assert_eq!(unit.get_y(), 9);
}

#[test]
fn player_kind_has_the_strength_of_a_human() {
    let t = UnitType::new("Player", '@', Color::white());
    assert_eq!(t.get_name(), "Player");
    assert_eq!(t.get_glyph(), '@');
    assert_eq!(t.get_color(), Color::white());
    assert_eq!(t.get_max_hp(), 30);
    assert_eq!(t.get_defence(), 3);
    assert_eq!(t.get_attack(), 5);
    assert!(t.get_is_blocking());
}

#[test]
fn units_move_and_step() {
    let t = kind("Rat", 10, 0, 0);
    let mut unit = Unit::new(Point::new(5, 5), &t);
    unit.move_to(Point::new(7, 2));
    assert_eq!(unit.get_position(), Point::new(7, 2));
    unit.nudge(Direction::Up);
    assert_eq!(unit.get_position(), Point::new(7, 1));
    unit.nudge(Direction::Left);
    assert_eq!(unit.get_position(), Point::new(6, 1));
    unit.nudge(Direction::Down);
    unit.nudge(Direction::Right);
    assert_eq!(unit.get_position(), Point::new(7, 2));
    assert_eq!(unit.get_hp(), 10);
}

#[test]
fn numbers_are_written_in_decimal() {
    let cases =
        [(0u8, "0"), (7, "7"), (10, "10"), (42, "42"), (99, "99"), (100, "100"), (255, "255")];
    for (n, text) in cases {
        let mut s = String::from("n=");
        push_decimal(&mut s, n);
        assert_eq!(s, format!("n={}", text));
    }
    for n in 0..=255u8 {
        let mut s = String::new();
        push_decimal(&mut s, n);
        assert_eq!(s, format!("{}", n));
    }
}

#[test]
fn message_texts() {
    assert_eq!(attack_text("Orc", "Player", 13), "Orc attacks Player for 13 damage.");
    assert_eq!(no_effect_text("Rat", "Player"), "Rat attacks Player, but it has no effect!");
    assert_eq!(death_text("Orc"), "Orc is dead!");
}

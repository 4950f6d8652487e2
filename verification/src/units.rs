//! Units and their fights.

use vstd::prelude::*;

use crate::color::Color;
use crate::direction::Direction;
use crate::point::Point;
use crate::text::{attack_message, attack_text, no_effect_message, no_effect_text};
use crate::traits::{Movable, Position, Renderable};
use crate::ui::{LogLine, UI};
use crate::unit_type::{UnitType, UnitTypeView};

verus! {

/// What an attack did to its target.
#[derive(Debug, Copy, Clone, PartialEq, Eq, Structural)]
pub enum AttackResult {
    /// The target has no hit points left.
    Dead,
    /// The target was hit and lives.
    Alive,
    /// The target's defence is greater than the attack.
    NoEffect,
}

/// What an attack that got through for `damage` makes of `hp` hit points:
/// they go down by `damage`, or to 0 where `damage` is more than are left,
/// and only then the target counts as dead.
pub open spec fn damage_outcome(hp: u8, damage: u8) -> (u8, AttackResult) {
    if damage <= hp {
        ((hp - damage) as u8, AttackResult::Alive)
    } else {
        (0u8, AttackResult::Dead)
    }
}

/// What an attack of strength `attack` makes of `hp` hit points behind a
/// defence of `defence`: nothing where the defence is the greater, else what
/// a damage of `attack - defence` does.
pub open spec fn attack_outcome(attack: u8, defence: u8, hp: u8) -> (u8, AttackResult) {
    if attack < defence {
        (hp, AttackResult::NoEffect)
    } else {
        damage_outcome(hp, (attack - defence) as u8)
    }
}

/// What a `Unit` is: where it stands, what it is the kind of, and how many
/// hit points it has left.
pub struct UnitView {
    pub position: Point,
    pub kind: UnitTypeView,
    pub hp: u8,
}

/// A creature of the dungeon: the player or one of the others.
#[derive(Debug, PartialEq)]
pub struct Unit<'a> {
    pub position: Point,
    pub unit_type: &'a UnitType,
    pub cur_hp: u8,
}

impl<'a> View for Unit<'a> {
    type V = UnitView;

    open spec fn view(&self) -> UnitView {
        UnitView { position: self.position, kind: self.unit_type@, hp: self.cur_hp }
    }
}

impl UnitView {
    /// The unit has no more hit points than its kind allows.
    pub open spec fn wf(self) -> bool {
        self.hp <= self.kind.max_hp
    }

    /// The message that tells of an attack of this unit on `target`.
    pub open spec fn attack_line(self, target: UnitView) -> LogLine {
        if self.kind.attack >= target.kind.defence {
            (
                attack_message(
                    self.kind.name,
                    target.kind.name,
                    (self.kind.attack - target.kind.defence) as u8,
                ),
                Color::spec_yellow(),
            )
        } else {
            (no_effect_message(self.kind.name, target.kind.name), Color::spec_white())
        }
    }

    /// `target` after an attack of this unit.
    pub open spec fn attacked(self, target: UnitView) -> UnitView {
        UnitView {
            hp: attack_outcome(self.kind.attack, target.kind.defence, target.hp).0,
            ..target
        }
    }
}

impl<'a> Unit<'a> {
    /// A unit of the given kind at `pos`, with all the hit points of its
    /// kind.
    pub fn new(pos: Point, unit_type: &'a UnitType) -> (unit: Unit<'a>)
        ensures
            unit@ == (UnitView { position: pos, kind: unit_type@, hp: unit_type@.max_hp }),
            unit@.wf(),
    {
        let cur_hp = unit_type.get_max_hp();
        Unit { position: pos, unit_type, cur_hp }
    }

    pub fn is_blocking(&self) -> (b: bool)
        ensures
            b == self@.kind.is_blocking,
    {
        self.unit_type.get_is_blocking()
    }

    pub fn get_name(&self) -> (name: &str)
        ensures
            name@ == self@.kind.name,
    {
        self.unit_type.get_name()
    }

    pub fn get_hp(&self) -> (hp: u8)
        ensures
            hp == self@.hp,
    {
        self.cur_hp
    }

    /// Takes `damage` hit points from the unit, as far as it has them.
    pub fn take_damage(&mut self, damage: u8) -> (r: AttackResult)
        ensures
            (final(self)@.hp, r) == damage_outcome(old(self)@.hp, damage),
            final(self)@ == (UnitView { hp: final(self)@.hp, ..old(self)@ }),
            old(self)@.wf() ==> final(self)@.wf(),
    {
        if let Some(new_hp) = self.cur_hp.checked_sub(damage) {
            self.cur_hp = new_hp;
            AttackResult::Alive
        } else {
            self.cur_hp = 0;
            AttackResult::Dead
        }
    }

    /// Attacks `target` and tells of it in the log of `ui`.
    pub fn attack(&self, target: &mut Unit, ui: &mut UI) -> (r: AttackResult)
        ensures
            (final(target)@.hp, r) == attack_outcome(
                self@.kind.attack,
                old(target)@.kind.defence,
                old(target)@.hp,
            ),
            final(target)@ == self@.attacked(old(target)@),
            old(target)@.wf() ==> final(target)@.wf(),
            final(ui).shows_all(old(ui), seq![self@.attack_line(old(target)@)]),
    {
        if let Some(damage) = self.unit_type.get_attack().checked_sub(
            target.unit_type.get_defence(),
        ) {
            let text = attack_text(self.get_name(), target.get_name(), damage);
            ui.add_message(text.as_str(), Color::yellow());
            target.take_damage(damage)
        } else {
            let text = no_effect_text(self.get_name(), target.get_name());
            ui.add_message(text.as_str(), Color::white());
            AttackResult::NoEffect
        }
    }

    /// Sets the hit points to `amount`, or to as many as the unit's kind
    /// allows where that is less.
    pub fn heal(&mut self, amount: u8)
        ensures
            final(self)@ == (UnitView {
                hp: if amount <= old(self)@.kind.max_hp {
                    amount
                } else {
                    old(self)@.kind.max_hp
                },
                ..old(self)@
            }),
            final(self)@.wf(),
    {
        let max_hp = self.unit_type.get_max_hp();
        self.cur_hp = if amount <= max_hp {
            amount
        } else {
            max_hp
        };
    }
}

impl<'a> Position for Unit<'a> {
    open spec fn position(&self) -> Point {
        self.position
    }

    fn get_x(&self) -> (x: i16) {
        self.position.x
    }

    fn get_y(&self) -> (y: i16) {
        self.position.y
    }
}

impl<'a> Renderable for Unit<'a> {
    open spec fn color(&self) -> Color {
        self.unit_type.color
    }

    open spec fn glyph(&self) -> char {
        self.unit_type.glyph
    }

    fn get_color(&self) -> (c: Color) {
        self.unit_type.get_color()
    }

    fn get_glyph(&self) -> (g: char) {
        self.unit_type.get_glyph()
    }
}

impl<'a> Movable for Unit<'a> {
    open spec fn moved_to(self, pos: Point) -> Self {
        Unit { position: pos, ..self }
    }

    fn move_to(&mut self, pos: Point) {
        self.position = pos;
    }

    fn nudge(&mut self, dir: Direction) {
        self.position = self.position + dir.to_rel_point();
    }
}

} // verus!

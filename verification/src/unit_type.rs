//! The kinds of unit, and the catalog from which units are drawn.

use vstd::prelude::*;
use vstd::std_specs::convert::FromSpecImpl;
use vstd::string::*;
use rand::ThreadRng;

use crate::color::Color;
use crate::random::gen_range;

verus! {

/// What a `UnitType` is, with its name as a sequence of characters.
pub struct UnitTypeView {
    pub name: Seq<char>,
    pub glyph: char,
    pub color: Color,
    pub is_blocking: bool,
    pub max_hp: u8,
    pub defence: u8,
    pub attack: u8,
}

/// The template that all units of one kind share: how they look and how
/// well they fight.
#[derive(Debug, PartialEq)]
pub struct UnitType {
    pub name: String,
    pub glyph: char,
    pub color: Color,
    pub is_blocking: bool,
    pub max_hp: u8,
    pub defence: u8,
    pub attack: u8,
}

impl View for UnitType {
    type V = UnitTypeView;

    open spec fn view(&self) -> UnitTypeView {
        UnitTypeView {
            name: self.name@,
            glyph: self.glyph,
            color: self.color,
            is_blocking: self.is_blocking,
            max_hp: self.max_hp,
            defence: self.defence,
            attack: self.attack,
        }
    }
}

impl UnitType {
    /// A kind of unit with the strength of an ordinary human: it blocks the
    /// way, has 30 hit points, a defence of 3 and an attack of 5.
    pub fn new(name: &str, glyph: char, color: Color) -> (t: UnitType)
        ensures
            t@ == (UnitTypeView {
                name: name@,
                glyph,
                color,
                is_blocking: true,
                max_hp: 30,
                defence: 3,
                attack: 5,
            }),
    {
        UnitType {
            name: String::from_str(name),
            glyph,
            color,
            is_blocking: true,
            max_hp: 30,
            defence: 3,
            attack: 5,
        }
    }

    pub fn get_name(&self) -> (name: &str)
        ensures
            name@ == self@.name,
    {
        self.name.as_str()
    }

    pub fn get_glyph(&self) -> (glyph: char)
        ensures
            glyph == self@.glyph,
    {
        self.glyph
    }

    pub fn get_color(&self) -> (color: Color)
        ensures
            color == self@.color,
    {
        self.color
    }

    pub fn get_max_hp(&self) -> (max_hp: u8)
        ensures
            max_hp == self@.max_hp,
    {
        self.max_hp
    }

    pub fn get_defence(&self) -> (defence: u8)
        ensures
            defence == self@.defence,
    {
        self.defence
    }

    pub fn get_attack(&self) -> (attack: u8)
        ensures
            attack == self@.attack,
    {
        self.attack
    }

    pub fn get_is_blocking(&self) -> (is_blocking: bool)
        ensures
            is_blocking == self@.is_blocking,
    {
        self.is_blocking
    }
}

impl<'a> From<&'a UnitTypeRaw> for UnitType {
    /// The kind of unit that a record of the catalog describes.
    fn from(raw: &'a UnitTypeRaw) -> (t: UnitType) {
        UnitType {
            name: raw.name.clone(),
            glyph: raw.glyph,
            color: Color::new(raw.color[0], raw.color[1], raw.color[2]),
            is_blocking: raw.is_blocking,
            max_hp: raw.max_hp,
            defence: raw.defence,
            attack: raw.attack,
        }
    }
}

impl<'a> FromSpecImpl<&'a UnitTypeRaw> for UnitType {
    open spec fn obeys_from_spec() -> bool {
        true
    }

    open spec fn from_spec(raw: &'a UnitTypeRaw) -> UnitType {
        UnitType {
            name: raw.name,
            glyph: raw.glyph,
            color: Color { r: raw.color[0], g: raw.color[1], b: raw.color[2] },
            is_blocking: raw.is_blocking,
            max_hp: raw.max_hp,
            defence: raw.defence,
            attack: raw.attack,
        }
    }
}

/// One record of the catalog of unit kinds, as it is read from outside:
/// the colour as its three intensities, and with it the weight `chance` by
/// which this kind is drawn when a unit is made.
#[derive(Debug)]
pub struct UnitTypeRaw {
    pub name: String,
    pub glyph: char,
    pub color: [u8; 3],
    pub chance: u32,
    pub is_blocking: bool,
    pub max_hp: u8,
    pub defence: u8,
    pub attack: u8,
}

impl UnitTypeRaw {
    /// The kind of unit that this record describes.
    pub open spec fn unit_type(&self) -> UnitTypeView {
        UnitTypeView {
            name: self.name@,
            glyph: self.glyph,
            color: Color { r: self.color[0], g: self.color[1], b: self.color[2] },
            is_blocking: self.is_blocking,
            max_hp: self.max_hp,
            defence: self.defence,
            attack: self.attack,
        }
    }
}

/// An item and the weight by which it is drawn.
#[derive(Debug, Copy, Clone)]
pub struct Weighted {
    pub weight: u32,
    pub item: usize,
}

/// The sum of the first `n` weights.
pub open spec fn weight_sum(weights: Seq<Weighted>, n: int) -> int
    decreases n,
{
    if n <= 0 {
        0
    } else {
        weight_sum(weights, n - 1) + weights[n - 1].weight
    }
}

/// The place of the entry that a draw of `sample` falls on: the first whose
/// weight, added to those before it, exceeds `sample`.
pub open spec fn drawn_index(weights: Seq<Weighted>, sample: int, i: int) -> bool {
    &&& 0 <= i < weights.len()
    &&& weight_sum(weights, i) <= sample < weight_sum(weights, i + 1)
}

/// The sums of the weights grow with the number of weights summed.
pub proof fn lemma_weight_sum_grows(weights: Seq<Weighted>, a: int, b: int)
    requires
        0 <= a <= b,
    ensures
        0 <= weight_sum(weights, a) <= weight_sum(weights, b),
    decreases b,
{
    if a < b {
        lemma_weight_sum_grows(weights, a, b - 1);
    } else if a > 0 {
        lemma_weight_sum_grows(weights, a - 1, a - 1);
    }
}

/// A draw falls on one entry only.
pub proof fn lemma_drawn_index_unique(weights: Seq<Weighted>, sample: int, i: int, j: int)
    requires
        drawn_index(weights, sample, i),
        drawn_index(weights, sample, j),
    ensures
        i == j,
{
    if i < j {
        lemma_weight_sum_grows(weights, i + 1, j);
    } else if j < i {
        lemma_weight_sum_grows(weights, j + 1, i);
    }
}

/// The catalog of unit kinds, with the weight by which each is drawn.
pub struct UnitTypeLists {
    pub types: Vec<UnitType>,
    weights: Vec<Weighted>,
    max_weight: u32,
}

impl UnitTypeLists {
    /// The kinds of unit, in the order of the catalog.
    pub closed spec fn types(&self) -> Seq<UnitType> {
        self.types@
    }

    /// The weights, one for each kind and in the same order.
    pub closed spec fn weights(&self) -> Seq<Weighted> {
        self.weights@
    }

    /// The sum of all weights.
    pub closed spec fn max_weight(&self) -> int {
        self.max_weight as int
    }

    /// The catalog is not empty, each kind has its weight, and the weights
    /// add up to `max_weight`, which is not 0.
    pub open spec fn wf(&self) -> bool {
        &&& self.types().len() == self.weights().len()
        &&& self.types().len() >= 1
        &&& forall|i: int|
            0 <= i < self.weights().len() ==> (#[trigger] self.weights()[i]).item == i
        &&& self.max_weight() == weight_sum(self.weights(), self.weights().len() as int)
        &&& 0 < self.max_weight() <= u32::MAX
    }

    /// Makes the catalog from its records, or `None` where there is no
    /// record, where the weights are all 0, or where their sum does not fit
    /// in 32 bits.
    pub fn from_raw(raw_units: &Vec<UnitTypeRaw>) -> (r: Option<UnitTypeLists>)
        ensures
            r.is_some() == (raw_units@.len() >= 1 && 0 < weight_sum(
                raw_weights(raw_units@),
                raw_units@.len() as int,
            ) <= u32::MAX),
            r.is_some() ==> {
                &&& r.unwrap().wf()
                &&& r.unwrap().weights() == raw_weights(raw_units@)
                &&& r.unwrap().types().len() == raw_units@.len()
                &&& forall|i: int|
                    0 <= i < raw_units@.len() ==> (#[trigger] r.unwrap().types()[i])@
                        == raw_units@[i].unit_type()
            },
    {
        let mut types: Vec<UnitType> = Vec::new();
        let mut weights: Vec<Weighted> = Vec::new();
        let mut running_total: u32 = 0;
        let mut i: usize = 0;
        let ghost all = raw_weights(raw_units@);
        while i < raw_units.len()
            invariant
                i <= raw_units.len(),
                all == raw_weights(raw_units@),
                types@.len() == i,
                weights@ == all.take(i as int),
                running_total == weight_sum(all, i as int),
                forall|k: int|
                    0 <= k < i ==> (#[trigger] types@[k])@ == raw_units@[k].unit_type(),
            decreases raw_units.len() - i,
        {
            let raw_unit = &raw_units[i];
            match running_total.checked_add(raw_unit.chance) {
                Some(total) => {
                    running_total = total;
                },
                None => {
                    proof {
                        lemma_weight_sum_grows(all, i + 1, raw_units@.len() as int);
                    }
                    return None;
                },
            }
            types.push(UnitType::from(raw_unit));
            weights.push(Weighted { weight: raw_unit.chance, item: i });
            proof {
                assert(all.take(i + 1) == all.take(i as int).push(all[i as int]));
            }
            i += 1;
        }
        proof {
            assert(all.take(raw_units@.len() as int) == all);
        }
        if i == 0 || running_total == 0 {
            return None;
        }
        Some(UnitTypeLists { types, weights, max_weight: running_total })
    }

    /// The entry that a draw of `sample` falls on.
    pub fn pick(&self, sample: u32) -> (i: usize)
        requires
            self.wf(),
            sample < self.max_weight(),
        ensures
            drawn_index(self.weights(), sample as int, i as int),
            i < self.types().len(),
            self.weights()[i as int].weight > 0,
    {
        let mut val: u32 = sample;
        let mut i: usize = 0;
        while i < self.weights.len()
            invariant
                i <= self.weights.len(),
                self.wf(),
                val + weight_sum(self.weights(), i as int) == sample,
                sample < self.max_weight(),
            decreases self.weights.len() - i,
        {
            let weight = self.weights[i];
            if weight.weight > val {
                return i;
            }
            val -= weight.weight;
            i += 1;
        }
        proof {
            assert(false);
        }
        0
    }

    /// Draws a kind of unit at random, each kind as often as its weight is
    /// of the sum of all weights.
    ///
    /// Whatever the random source yields, the result is a kind of the
    /// catalog whose weight is not 0.
    pub fn get_random_type(&self, rng: &mut ThreadRng) -> (t: &UnitType)
        requires
            self.wf(),
        ensures
            exists|i: int|
                0 <= i < self.types().len() && self.weights()[i].weight > 0 && *t
                    == #[trigger] self.types()[i],
    {
        let val = gen_range(rng, 0, self.max_weight as i64) as u32;
        let i = self.pick(val);
        &self.types[i]
    }
}

/// The weights that the records of a catalog give to their kinds.
pub open spec fn raw_weights(raw_units: Seq<UnitTypeRaw>) -> Seq<Weighted> {
    Seq::new(raw_units.len(), |i: int| Weighted { weight: raw_units[i].chance, item: i as usize })
}

} // verus!

//! Things that lie on the map.

use vstd::prelude::*;
use vstd::string::*;

use crate::color::Color;
use crate::point::Point;
use crate::traits::{Position, Renderable};

verus! {

/// What an `Item` is, with its name as a sequence of characters.
pub struct ItemView {
    pub name: Seq<char>,
    pub glyph: char,
    pub color: Color,
    pub position: Point,
}

/// A thing that lies on a tile and takes no part in the simulation, such as
/// the corpse of a unit.
#[derive(Debug)]
pub struct Item {
    pub name: String,
    pub glyph: char,
    pub color: Color,
    pub position: Point,
}

impl View for Item {
    type V = ItemView;

    open spec fn view(&self) -> ItemView {
        ItemView {
            name: self.name@,
            glyph: self.glyph,
            color: self.color,
            position: self.position,
        }
    }
}

impl Item {
    pub fn new(name: &str, glyph: char, color: Color, pos: Point) -> (item: Item)
        ensures
            item@ == (ItemView { name: name@, glyph, color, position: pos }),
    {
        Item { name: String::from_str(name), glyph, color, position: pos }
    }
}

impl Position for Item {
    open spec fn position(&self) -> Point {
        self.position
    }

    fn get_x(&self) -> (x: i16) {
        self.position.x
    }

    fn get_y(&self) -> (y: i16) {
        self.position.y
    }
}

impl Renderable for Item {
    open spec fn color(&self) -> Color {
        self.color
    }

    open spec fn glyph(&self) -> char {
        self.glyph
    }

    fn get_color(&self) -> (c: Color) {
        self.color
    }

    fn get_glyph(&self) -> (g: char) {
        self.glyph
    }
}

} // verus!

//! What the things of the game have in common: a position, a look, and the
//! means to be moved.

use vstd::prelude::*;

use crate::color::Color;
use crate::direction::Direction;
use crate::point::Point;

verus! {

/// Something that stands on a tile of the grid.
pub trait Position {
    /// The tile it stands on.
    spec fn position(&self) -> Point;

    fn get_x(&self) -> (x: i16)
        ensures
            x == self.position().x,
    ;

    fn get_y(&self) -> (y: i16)
        ensures
            y == self.position().y,
    ;

    fn get_position(&self) -> (p: Point)
        ensures
            p == self.position(),
    {
        Point { x: self.get_x(), y: self.get_y() }
    }
}

/// Something that can be drawn as one coloured character.
pub trait Renderable: Position {
    /// The colour it is drawn in.
    spec fn color(&self) -> Color;

    /// The character it is drawn as.
    spec fn glyph(&self) -> char;

    fn get_color(&self) -> (c: Color)
        ensures
            c == self.color(),
    ;

    fn get_glyph(&self) -> (g: char)
        ensures
            g == self.glyph(),
    ;
}

/// Something that can be put on another tile.
pub trait Movable: Position + Sized {
    /// What the value is once it stands at `pos`: nothing but its position
    /// changes.
    spec fn moved_to(self, pos: Point) -> Self;

    fn move_to(&mut self, pos: Point)
        ensures
            *final(self) == old(self).moved_to(pos),
            final(self).position() == pos,
    ;

    /// Takes one step in direction `dir`.
    fn nudge(&mut self, dir: Direction)
        requires
            old(self).position().can_add(dir.rel_point()),
        ensures
            *final(self) == old(self).moved_to(old(self).position().plus(dir.rel_point())),
            final(self).position() == old(self).position().plus(dir.rel_point()),
    ;
}

} // verus!

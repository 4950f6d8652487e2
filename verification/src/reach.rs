//! Which floor tiles can be reached from which, by steps over shared edges.

use vstd::prelude::*;

use crate::carve::{h_run, v_run};
use crate::corridors::l_path;
use crate::map::GameMap;
use crate::point::Point;
use crate::rectangle::Rectangle;

verus! {

/// The two tiles share an edge.
pub open spec fn adjacent(a: Point, b: Point) -> bool {
    ||| a.x == b.x && (a.y - b.y == 1 || b.y - a.y == 1)
    ||| a.y == b.y && (a.x - b.x == 1 || b.x - a.x == 1)
}

impl GameMap {
    /// `path` leads over floor only, each step from a tile to one that shares
    /// an edge with it.
    pub open spec fn is_walk(&self, path: Seq<Point>) -> bool {
        &&& path.len() >= 1
        &&& forall|i: int| 0 <= i < path.len() ==> self.is_floor(#[trigger] path[i])
        &&& forall|i: int| 0 <= i < path.len() - 1 ==> adjacent(#[trigger] path[i], path[i + 1])
    }

    /// A walk leads from `a` to `b`.
    pub open spec fn connected(&self, a: Point, b: Point) -> bool {
        exists|path: Seq<Point>| #[trigger] self.is_walk(path) && path[0] == a && path.last() == b
    }

    /// Every tile of `region` is floor of this map.
    pub open spec fn all_floor(&self, region: Set<Point>) -> bool {
        forall|p: Point| #[trigger] region.contains(p) ==> self.is_floor(p)
    }

    /// A floor tile is connected to itself.
    pub proof fn lemma_connected_refl(&self, a: Point)
        requires
            self.is_floor(a),
        ensures
            self.connected(a, a),
    {
        let path = seq![a];
        assert(self.is_walk(path) && path[0] == a && path.last() == a);
    }

    /// Two floor tiles that share an edge are connected.
    pub proof fn lemma_connected_step(&self, a: Point, b: Point)
        requires
            self.is_floor(a),
            self.is_floor(b),
            adjacent(a, b),
        ensures
            self.connected(a, b),
    {
        let path = seq![a, b];
        assert(self.is_walk(path) && path[0] == a && path.last() == b);
    }

    /// A walk can be taken backwards.
    pub proof fn lemma_connected_sym(&self, a: Point, b: Point)
        requires
            self.connected(a, b),
        ensures
            self.connected(b, a),
    {
        let path = choose|path: Seq<Point>| #[trigger]
            self.is_walk(path) && path[0] == a && path.last() == b;
        let back = Seq::new(path.len(), |i: int| path[path.len() - 1 - i]);
        assert forall|i: int| 0 <= i < back.len() - 1 implies adjacent(
            #[trigger] back[i],
            back[i + 1],
        ) by {
            let j = path.len() - 2 - i;
            assert(adjacent(path[j], path[j + 1]));
        }
        assert(self.is_walk(back) && back[0] == b && back.last() == a);
    }

    /// A walk from `a` to `b` and one from `b` to `c` make one from `a` to
    /// `c`.
    pub proof fn lemma_connected_trans(&self, a: Point, b: Point, c: Point)
        requires
            self.connected(a, b),
            self.connected(b, c),
        ensures
            self.connected(a, c),
    {
        let first = choose|path: Seq<Point>| #[trigger]
            self.is_walk(path) && path[0] == a && path.last() == b;
        let second = choose|path: Seq<Point>| #[trigger]
            self.is_walk(path) && path[0] == b && path.last() == c;
        let whole = first + second.drop_first();
        assert forall|i: int| 0 <= i < whole.len() implies self.is_floor(#[trigger] whole[i]) by {
            if i >= first.len() {
                assert(whole[i] == second[i - first.len() + 1]);
            }
        }
        assert forall|i: int| 0 <= i < whole.len() - 1 implies adjacent(
            #[trigger] whole[i],
            whole[i + 1],
        ) by {
            if i < first.len() - 1 {
                assert(adjacent(first[i], first[i + 1]));
            } else {
                let j = i - first.len() + 1;
                assert(adjacent(second[j], second[j + 1]));
                assert(whole[i + 1] == second[j + 1]);
                if i == first.len() - 1 {
                    assert(whole[i] == second[0]);
                } else {
                    assert(whole[i] == second[j]);
                }
            }
        }
        assert(self.is_walk(whole) && whole[0] == a && whole.last() == c);
    }

    /// The ends of a run of floor along a row are connected.
    pub proof fn lemma_row_connected(&self, x1: i16, x2: i16, y: i16)
        requires
            self.all_floor(h_run(x1 as int, x2 as int, y as int)),
        ensures
            self.connected(Point { x: x1, y }, Point { x: x2, y }),
        decreases
                (if x1 <= x2 {
                    x2 - x1
                } else {
                    x1 - x2
                }),
    {
        let run = h_run(x1 as int, x2 as int, y as int);
        let a = Point { x: x1, y };
        assert(run.contains(a));
        if x1 == x2 {
            self.lemma_connected_refl(a);
        } else {
            let xn: i16 = if x1 < x2 {
                (x1 + 1) as i16
            } else {
                (x1 - 1) as i16
            };
            let n = Point { x: xn, y };
            assert(run.contains(n));
            assert forall|p: Point| #[trigger]
                h_run(xn as int, x2 as int, y as int).contains(p) implies self.is_floor(p) by {
                assert(run.contains(p));
            }
            self.lemma_row_connected(xn, x2, y);
            self.lemma_connected_step(a, n);
            self.lemma_connected_trans(a, n, Point { x: x2, y });
        }
    }

    /// The ends of a run of floor along a column are connected.
    pub proof fn lemma_column_connected(&self, x: i16, y1: i16, y2: i16)
        requires
            self.all_floor(v_run(x as int, y1 as int, y2 as int)),
        ensures
            self.connected(Point { x, y: y1 }, Point { x, y: y2 }),
        decreases
                (if y1 <= y2 {
                    y2 - y1
                } else {
                    y1 - y2
                }),
    {
        let run = v_run(x as int, y1 as int, y2 as int);
        let a = Point { x, y: y1 };
        assert(run.contains(a));
        if y1 == y2 {
            self.lemma_connected_refl(a);
        } else {
            let yn: i16 = if y1 < y2 {
                (y1 + 1) as i16
            } else {
                (y1 - 1) as i16
            };
            let n = Point { x, y: yn };
            assert(run.contains(n));
            assert forall|p: Point| #[trigger]
                v_run(x as int, yn as int, y2 as int).contains(p) implies self.is_floor(p) by {
                assert(run.contains(p));
            }
            self.lemma_column_connected(x, yn, y2);
            self.lemma_connected_step(a, n);
            self.lemma_connected_trans(a, n, Point { x, y: y2 });
        }
    }

    /// Every tile of an L-shaped corridor that is all floor is connected to
    /// the tile at which the corridor starts.
    #[verifier::rlimit(40)]
    pub proof fn lemma_l_path_connected(
        &self,
        from: Point,
        to: Point,
        horizontal_first: bool,
        p: Point,
    )
        requires
            self.all_floor(l_path(from, to, horizontal_first)),
            l_path(from, to, horizontal_first).contains(p),
        ensures
            self.connected(from, p),
    {
        let path = l_path(from, to, horizontal_first);
        if horizontal_first {
            let row = h_run(from.x as int, to.x as int, from.y as int);
            let corner = Point { x: to.x, y: from.y };
            if row.contains(p) {
                assert forall|t: Point| #[trigger]
                    h_run(from.x as int, p.x as int, from.y as int).contains(
                        t,
                    ) implies self.is_floor(t) by {
                    assert(row.contains(t));
                    assert(path.contains(t));
                }
                self.lemma_row_connected(from.x, p.x, from.y);
            } else {
                let column = v_run(to.x as int, from.y as int, to.y as int);
                assert(column.contains(p));
                assert forall|t: Point| #[trigger] row.contains(t) implies self.is_floor(t) by {
                    assert(path.contains(t));
                }
                assert forall|t: Point| #[trigger]
                    v_run(to.x as int, from.y as int, p.y as int).contains(
                        t,
                    ) implies self.is_floor(t) by {
                    assert(column.contains(t));
                    assert(path.contains(t));
                }
                self.lemma_row_connected(from.x, to.x, from.y);
                self.lemma_column_connected(to.x, from.y, p.y);
                self.lemma_connected_trans(from, corner, p);
            }
        } else {
            let column = v_run(from.x as int, from.y as int, to.y as int);
            let corner = Point { x: from.x, y: to.y };
            if column.contains(p) {
                assert forall|t: Point| #[trigger]
                    v_run(from.x as int, from.y as int, p.y as int).contains(
                        t,
                    ) implies self.is_floor(t) by {
                    assert(column.contains(t));
                    assert(path.contains(t));
                }
                self.lemma_column_connected(from.x, from.y, p.y);
            } else {
                let row = h_run(from.x as int, to.x as int, to.y as int);
                assert(row.contains(p));
                assert forall|t: Point| #[trigger] column.contains(t) implies self.is_floor(
                    t,
                ) by {
                    assert(path.contains(t));
                }
                assert forall|t: Point| #[trigger]
                    h_run(from.x as int, p.x as int, to.y as int).contains(t) implies self.is_floor(
                    t,
                ) by {
                    assert(row.contains(t));
                    assert(path.contains(t));
                }
                self.lemma_column_connected(from.x, from.y, to.y);
                self.lemma_row_connected(from.x, p.x, to.y);
                self.lemma_connected_trans(from, corner, p);
            }
        }
    }

    /// Any two tiles inside a room whose inside is all floor are connected.
    pub proof fn lemma_room_connected(&self, room: Rectangle, p: Point, q: Point)
        requires
            self.all_floor(room.inner_tiles()),
            room.contains_inner(p),
            room.contains_inner(q),
        ensures
            self.connected(p, q),
    {
        let corner = Point { x: q.x, y: p.y };
        assert forall|t: Point| #[trigger]
            h_run(p.x as int, q.x as int, p.y as int).contains(t) implies self.is_floor(t) by {
            assert(room.inner_tiles().contains(t));
        }
        assert forall|t: Point| #[trigger]
            v_run(q.x as int, p.y as int, q.y as int).contains(t) implies self.is_floor(t) by {
            assert(room.inner_tiles().contains(t));
        }
        self.lemma_row_connected(p.x, q.x, p.y);
        self.lemma_column_connected(q.x, p.y, q.y);
        self.lemma_connected_trans(p, corner, q);
    }
}

} // verus!

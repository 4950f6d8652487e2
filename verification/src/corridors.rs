//! Which rooms are joined by corridors, and the digging of those corridors.

use vstd::prelude::*;
use rand::ThreadRng;

use crate::carve::{h_run, v_run};
use crate::map::GameMap;
use crate::point::Point;
use crate::random::gen_weighted_bool;
use crate::ranking::{
    all_below,
    lemma_sort_agrees,
    lemma_stable_sort_ranks,
    rank_rooms,
    stable_sort,
};
use crate::rectangle::Rectangle;
use crate::rooms::lemma_carving_twice;

verus! {

/// To how many of its nearest neighbours a room is joined.
pub const ROOM_LINKS: usize = 3;

/// The square of the straight-line distance between two points.
pub open spec fn sqr_distance(a: Point, b: Point) -> int {
    (a.x - b.x) * (a.x - b.x) + (a.y - b.y) * (a.y - b.y)
}

/// The rooms `a` and `b` are joined by one of `links`, in either direction.
pub open spec fn has_link(links: Seq<(usize, usize)>, a: usize, b: usize) -> bool {
    links.contains((a, b)) || links.contains((b, a))
}

/// `links`, and behind them a link from room `i` to each of the rooms
/// `order[from]` to `order[to - 1]` in turn, but for those that a link joins
/// to room `i` already.
pub open spec fn add_links(
    links: Seq<(usize, usize)>,
    i: usize,
    order: Seq<usize>,
    from: int,
    to: int,
) -> Seq<(usize, usize)>
    decreases to - from,
{
    if from >= to {
        links
    } else {
        let before = add_links(links, i, order, from, to - 1);
        let next = order[to - 1];
        if has_link(before, i, next) {
            before
        } else {
            before.push((i, next))
        }
    }
}

/// The rooms `0` to `n - 1` in that order.
pub open spec fn first_order(n: nat) -> Seq<usize> {
    Seq::new(n, |i: int| i as usize)
}

/// The key by which the rooms are ranked when room `i` looks for its
/// neighbours: the squared distance of their centres from its own.
pub open spec fn distance_key(centres: Seq<Point>, i: int) -> spec_fn(usize) -> int {
    |j: usize| sqr_distance(centres[i], centres[j as int])
}

/// Where the ranking of a room's neighbours ends: behind the room itself
/// and its `ROOM_LINKS` nearest neighbours, or with the last room.
pub open spec fn rank_end(n: int) -> int {
    if n < ROOM_LINKS + 1 {
        n
    } else {
        ROOM_LINKS + 1
    }
}

/// The ranking of the rooms and the links made once the first `i` rooms
/// have looked for their neighbours.
///
/// Each room in turn ranks all rooms by the distance of their centres from
/// its own, nearest first; rooms at the same distance keep the order of the
/// ranking before. The first of the ranking is passed over: it is the room
/// itself, where no two centres are the same. The room is then linked to
/// each of the next `ROOM_LINKS` to which no link joins it yet.
pub open spec fn link_plan_upto(centres: Seq<Point>, i: nat) -> (Seq<usize>, Seq<(usize, usize)>)
    decreases i,
{
    if i == 0 {
        (first_order(centres.len()), Seq::empty())
    } else {
        let (order, links) = link_plan_upto(centres, (i - 1) as nat);
        let ranked = stable_sort(order, distance_key(centres, i - 1));
        (ranked, add_links(links, (i - 1) as usize, ranked, 1, rank_end(centres.len() as int)))
    }
}

/// The links between rooms with the given centres, in the order in which
/// they are made.
pub open spec fn link_plan(centres: Seq<Point>) -> Seq<(usize, usize)> {
    link_plan_upto(centres, centres.len()).1
}

/// The tiles of an L-shaped corridor between `from` and `to`: one leg along
/// a row, one along a column. With `horizontal_first` the row is that of
/// `from`, else that of `to`.
pub open spec fn l_path(from: Point, to: Point, horizontal_first: bool) -> Set<Point> {
    if horizontal_first {
        h_run(from.x as int, to.x as int, from.y as int).union(
            v_run(to.x as int, from.y as int, to.y as int),
        )
    } else {
        v_run(from.x as int, from.y as int, to.y as int).union(
            h_run(from.x as int, to.x as int, to.y as int),
        )
    }
}

/// The tiles of the corridors along `links`, the `k`-th of them laid out as
/// `flips[k]` says.
pub open spec fn corridors_region(
    centres: Seq<Point>,
    links: Seq<(usize, usize)>,
    flips: Seq<bool>,
) -> Set<Point>
    decreases links.len(),
{
    if links.len() == 0 {
        Set::empty()
    } else {
        corridors_region(centres, links.drop_last(), flips).union(
            l_path(
                centres[links.last().0 as int],
                centres[links.last().1 as int],
                flips[links.len() - 1],
            ),
        )
    }
}

/// The centres of the rooms.
pub open spec fn centres_of(rooms: Seq<Rectangle>) -> Seq<Point> {
    Seq::new(rooms.len(), |i: int| rooms[i].spec_centre())
}

/// The squared distance of every centre from the `i`-th.
fn distance_keys(centres: &Vec<Point>, i: usize) -> (keys: Vec<i64>)
    requires
        i < centres.len(),
    ensures
        keys@.len() == centres@.len(),
        forall|j: int|
            0 <= j < keys@.len() ==> #[trigger] keys@[j] == sqr_distance(
                centres@[i as int],
                centres@[j],
            ),
{
    let from = centres[i];
    let mut keys: Vec<i64> = Vec::new();
    let mut j: usize = 0;
    while j < centres.len()
        invariant
            j <= centres.len(),
            i < centres.len(),
            from == centres@[i as int],
            keys@.len() == j,
            forall|k: int|
                0 <= k < keys@.len() ==> #[trigger] keys@[k] == sqr_distance(
                    centres@[i as int],
                    centres@[k],
                ),
        decreases centres.len() - j,
    {
        let dx: i64 = from.x as i64 - centres[j].x as i64;
        let dy: i64 = from.y as i64 - centres[j].y as i64;
        assert(0 <= dx * dx <= 65535 * 65535 && 0 <= dy * dy <= 65535 * 65535) by (nonlinear_arith)
            requires
                -65535 <= dx <= 65535,
                -65535 <= dy <= 65535,
        ;
        keys.push(dx * dx + dy * dy);
        j += 1;
    }
    keys
}

/// Whether one of `links` joins the rooms `a` and `b`, in either direction.
fn linked(links: &Vec<(usize, usize)>, a: usize, b: usize) -> (found: bool)
    ensures
        found == has_link(links@, a, b),
{
    let mut k: usize = 0;
    while k < links.len()
        invariant
            k <= links.len(),
            !has_link(links@.take(k as int), a, b),
        decreases links.len() - k,
    {
        let (from, to) = links[k];
        if (from == a && to == b) || (from == b && to == a) {
            proof {
                assert(links@[k as int] == (from, to));
            }
            return true;
        }
        proof {
            let before = links@.take(k as int);
            let after = links@.take(k + 1);
            assert(after == before.push(links@[k as int]));
            assert forall|pair: (usize, usize)| after.contains(pair) implies before.contains(pair)
                || pair == links@[k as int] by {
                let at = choose|at: int| 0 <= at < after.len() && after[at] == pair;
                if at < k {
                    assert(before[at] == pair);
                }
            }
        }
        k += 1;
    }
    proof {
        assert(links@.take(links@.len() as int) == links@);
    }
    false
}

/// Every link joins two of `n` rooms.
pub open spec fn links_within(links: Seq<(usize, usize)>, n: int) -> bool {
    forall|k: int| 0 <= k < links.len() ==> (#[trigger] links[k]).0 < n && links[k].1 < n
}

/// Decides which rooms are joined by a corridor, from the centres of the
/// rooms alone.
pub fn plan_links(centres: &Vec<Point>) -> (links: Vec<(usize, usize)>)
    ensures
        links@ == link_plan(centres@),
        links_within(links@, centres@.len() as int),
{
    let n = centres.len();
    let mut order: Vec<usize> = Vec::new();
    let mut i: usize = 0;
    while i < n
        invariant
            i <= n,
            order@.len() == i,
            forall|k: int| 0 <= k < i ==> #[trigger] order@[k] == k,
        decreases n - i,
    {
        order.push(i);
        i += 1;
    }
    assert(order@ == first_order(n as nat));
    let mut links: Vec<(usize, usize)> = Vec::new();
    let end: usize = if n < ROOM_LINKS + 1 {
        n
    } else {
        ROOM_LINKS + 1
    };
    i = 0;
    while i < n
        invariant
            i <= n,
            n == centres@.len(),
            end == rank_end(n as int),
            (order@, links@) == link_plan_upto(centres@, i as nat),
            order@.len() == n,
            all_below(order@, n as int),
            links_within(links@, n as int),
        decreases n - i,
    {
        let keys = distance_keys(centres, i);
        let ghost order_before = order@;
        let ghost links_before = links@;
        order = rank_rooms(&order, &keys);
        proof {
            lemma_sort_agrees(
                order_before,
                |j: usize| keys@[j as int] as int,
                distance_key(centres@, i as int),
                n as int,
            );
        }
        let mut k: usize = 1;
        while k < end
            invariant
                1 <= k,
                k <= end || end < 1,
                end <= n,
                i < n,
                order@.len() == n,
                all_below(order@, n as int),
                links_within(links@, n as int),
                links@ == add_links(links_before, i, order@, 1, k as int),
            decreases end - k,
        {
            let next = order[k];
            if !linked(&links, i, next) {
                links.push((i, next));
            }
            k += 1;
        }
        i += 1;
    }
    links
}

/// No two of the centres are the same point.
pub open spec fn centres_differ(centres: Seq<Point>) -> bool {
    forall|a: int, b: int|
        #![trigger centres[a], centres[b]]
        0 <= a < b < centres.len() ==> centres[a] != centres[b]
}

/// At every stage of the planning the ranking holds every room once.
pub proof fn lemma_ranking_permutes(centres: Seq<Point>, i: nat)
    requires
        i <= centres.len() <= usize::MAX,
    ensures
        link_plan_upto(centres, i).0.to_multiset() == first_order(centres.len()).to_multiset(),
        link_plan_upto(centres, i).0.no_duplicates(),
        forall|room: usize| room < centres.len() ==> link_plan_upto(centres, i).0.contains(room),
    decreases i,
{
    broadcast use vstd::seq_lib::group_to_multiset_ensures;

    let rooms = first_order(centres.len());
    let order = link_plan_upto(centres, i).0;
    if i > 0 {
        lemma_ranking_permutes(centres, (i - 1) as nat);
        lemma_stable_sort_ranks(
            link_plan_upto(centres, (i - 1) as nat).0,
            distance_key(centres, i - 1),
        );
    }
    assert(rooms.no_duplicates());
    rooms.lemma_multiset_has_no_duplicates();
    order.lemma_multiset_has_no_duplicates_conv();
    assert forall|room: usize| room < centres.len() implies order.contains(room) by {
        assert(rooms[room as int] == room);
        assert(rooms.contains(room));
        assert(order.to_multiset().count(room) > 0);
    }
}

/// Where no two centres are the same, each room ranks itself first: the
/// rooms that it is linked to are others.
#[verifier::rlimit(40)]
pub proof fn lemma_ranking_starts_with_self(centres: Seq<Point>, i: nat)
    requires
        centres_differ(centres),
        i < centres.len() <= usize::MAX,
    ensures
        link_plan_upto(centres, i + 1).0[0] == i,
        forall|k: int|
            1 <= k < centres.len() ==> #[trigger] link_plan_upto(centres, i + 1).0[k] != i,
{
    let n = centres.len() as int;
    let key = distance_key(centres, i as int);
    let before = link_plan_upto(centres, i).0;
    let ranked = link_plan_upto(centres, i + 1).0;
    assert(ranked == stable_sort(before, key));
    lemma_ranking_permutes(centres, i + 1);
    lemma_link_plan_upto_within(centres, i + 1);
    lemma_stable_sort_ranks(before, key);
    let own = i as usize;
    assert(ranked.contains(own));
    let at = choose|at: int| 0 <= at < ranked.len() && ranked[at] == own;
    let first = ranked[0];
    assert(key(own) == 0);
    assert(0 <= key(first)) by (nonlinear_arith)
        requires
            key(first) == (centres[i as int].x - centres[first as int].x) * (centres[i as int].x
                - centres[first as int].x) + (centres[i as int].y - centres[first as int].y) * (
            centres[i as int].y - centres[first as int].y),
    ;
    if at > 0 {
        assert(key(ranked[0]) <= key(ranked[at]));
    }
    assert(centres[i as int] == centres[first as int]) by (nonlinear_arith)
        requires
            (centres[i as int].x - centres[first as int].x) * (centres[i as int].x
                - centres[first as int].x) + (centres[i as int].y - centres[first as int].y) * (
            centres[i as int].y - centres[first as int].y) == 0,
    {
        let dx = centres[i as int].x - centres[first as int].x;
        let dy = centres[i as int].y - centres[first as int].y;
        assert(dx * dx >= 0 && dy * dy >= 0);
        assert(dx * dx == 0 && dy * dy == 0);
        assert(dx == 0 && dy == 0);
    }
    if first != own {
        if first < own {
            assert(centres[first as int] != centres[own as int]);
        } else {
            assert(centres[own as int] != centres[first as int]);
        }
    }
    assert forall|k: int| 1 <= k < centres.len() implies #[trigger] ranked[k] != i by {
        if ranked[k] == own {
            assert(ranked[0] == ranked[k]);
        }
    }
}

/// Every link joins two different rooms.
pub open spec fn links_are_proper(links: Seq<(usize, usize)>) -> bool {
    forall|k: int| 0 <= k < links.len() ==> (#[trigger] links[k]).0 != links[k].1
}

/// Links that are added for room `i` to other rooms join different rooms.
proof fn lemma_add_links_proper(
    links: Seq<(usize, usize)>,
    i: usize,
    order: Seq<usize>,
    from: int,
    to: int,
)
    requires
        links_are_proper(links),
        0 <= from,
        to <= order.len(),
        forall|t: int| from <= t < to ==> #[trigger] order[t] != i,
    ensures
        links_are_proper(add_links(links, i, order, from, to)),
    decreases to - from,
{
    if from < to {
        lemma_add_links_proper(links, i, order, from, to - 1);
    }
}

/// Where no two centres are the same, every link joins two different rooms,
/// at every stage of the planning.
pub proof fn lemma_links_are_proper(centres: Seq<Point>, i: nat)
    requires
        centres_differ(centres),
        i <= centres.len() <= usize::MAX,
    ensures
        links_are_proper(link_plan_upto(centres, i).1),
    decreases i,
{
    if i > 0 {
        let stage = (i - 1) as nat;
        lemma_links_are_proper(centres, stage);
        lemma_ranking_starts_with_self(centres, stage);
        lemma_link_plan_upto_within(centres, i);
        let ranked = link_plan_upto(centres, i).0;
        assert forall|t: int| 1 <= t < rank_end(centres.len() as int) implies #[trigger] ranked[t]
            != stage as usize by {
            assert(link_plan_upto(centres, stage + 1).0[t] != stage);
        }
        lemma_add_links_proper(
            link_plan_upto(centres, stage).1,
            stage as usize,
            ranked,
            1,
            rank_end(centres.len() as int),
        );
    }
}

/// Links that are added for room `i` from a ranking of `n` rooms join rooms
/// among those `n`.
proof fn lemma_add_links_within(
    links: Seq<(usize, usize)>,
    i: usize,
    order: Seq<usize>,
    from: int,
    to: int,
    n: int,
)
    requires
        links_within(links, n),
        all_below(order, n),
        i < n,
        0 <= from,
        to <= order.len(),
    ensures
        links_within(add_links(links, i, order, from, to), n),
    decreases to - from,
{
    if from < to {
        lemma_add_links_within(links, i, order, from, to - 1, n);
    }
}

/// At every stage of the planning the ranking holds all the rooms and the
/// links join rooms that exist.
pub proof fn lemma_link_plan_upto_within(centres: Seq<Point>, i: nat)
    requires
        i <= centres.len(),
    ensures
        all_below(link_plan_upto(centres, i).0, centres.len() as int),
        link_plan_upto(centres, i).0.len() == centres.len(),
        links_within(link_plan_upto(centres, i).1, centres.len() as int),
    decreases i,
{
    if i > 0 {
        lemma_link_plan_upto_within(centres, (i - 1) as nat);
        let (order, links) = link_plan_upto(centres, (i - 1) as nat);
        let key = distance_key(centres, i - 1);
        lemma_sort_agrees(order, key, key, centres.len() as int);
        lemma_add_links_within(
            links,
            (i - 1) as usize,
            stable_sort(order, key),
            1,
            rank_end(centres.len() as int),
            centres.len() as int,
        );
    }
}

/// Every planned link joins two rooms that exist.
pub proof fn lemma_link_plan_within(centres: Seq<Point>)
    ensures
        links_within(link_plan(centres), centres.len() as int),
{
    lemma_link_plan_upto_within(centres, centres.len());
}

/// A tile lies in the region of the corridors exactly if it lies on one of
/// them.
pub proof fn lemma_corridors_region(
    centres: Seq<Point>,
    links: Seq<(usize, usize)>,
    flips: Seq<bool>,
    p: Point,
)
    ensures
        corridors_region(centres, links, flips).contains(p) <==> exists|k: int|
            0 <= k < links.len() && #[trigger] l_path(
                centres[links[k].0 as int],
                centres[links[k].1 as int],
                flips[k],
            ).contains(p),
    decreases links.len(),
{
    if links.len() > 0 {
        let rest = links.drop_last();
        let last = links.len() - 1;
        lemma_corridors_region(centres, rest, flips, p);
        if corridors_region(centres, links, flips).contains(p) {
            if l_path(
                centres[links.last().0 as int],
                centres[links.last().1 as int],
                flips[last],
            ).contains(p) {
                assert(l_path(
                    centres[links[last].0 as int],
                    centres[links[last].1 as int],
                    flips[last],
                ).contains(p));
            } else {
                let k = choose|k: int|
                    0 <= k < rest.len() && #[trigger] l_path(
                        centres[rest[k].0 as int],
                        centres[rest[k].1 as int],
                        flips[k],
                    ).contains(p);
                assert(l_path(
                    centres[links[k].0 as int],
                    centres[links[k].1 as int],
                    flips[k],
                ).contains(p));
            }
        }
        if exists|k: int|
            0 <= k < links.len() && #[trigger] l_path(
                centres[links[k].0 as int],
                centres[links[k].1 as int],
                flips[k],
            ).contains(p) {
            let k = choose|k: int|
                0 <= k < links.len() && #[trigger] l_path(
                    centres[links[k].0 as int],
                    centres[links[k].1 as int],
                    flips[k],
                ).contains(p);
            if k < last {
                assert(l_path(
                    centres[rest[k].0 as int],
                    centres[rest[k].1 as int],
                    flips[k],
                ).contains(p));
            }
        }
    }
}

/// The region of the corridors rests on no more coin flips than there are
/// links.
pub proof fn lemma_corridors_flips(
    centres: Seq<Point>,
    links: Seq<(usize, usize)>,
    flips: Seq<bool>,
    others: Seq<bool>,
)
    requires
        forall|k: int| 0 <= k < links.len() ==> flips[k] == others[k],
    ensures
        corridors_region(centres, links, flips) == corridors_region(centres, links, others),
    decreases links.len(),
{
    if links.len() > 0 {
        lemma_corridors_flips(centres, links.drop_last(), flips, others);
    }
}

impl GameMap {
    /// The centre of every one of `rooms` can be computed and lies in the
    /// map.
    pub open spec fn holds_centres(&self, rooms: Seq<Rectangle>) -> bool {
        forall|i: int|
            0 <= i < rooms.len() ==> {
                &&& i16::MIN <= (#[trigger] rooms[i]).top_left.x + rooms[i].bottom_right.x
                    <= i16::MAX
                &&& i16::MIN <= rooms[i].top_left.y + rooms[i].bottom_right.y <= i16::MAX
                &&& self.in_map(rooms[i].spec_centre())
            }
    }

    /// Joins each room to its nearest neighbours by L-shaped corridors
    /// between the centres, as `link_plan` says, and for each corridor lets
    /// a coin decide which leg comes first. Returns the coin flips.
    ///
    /// Whatever the coin shows, the map changes by nothing but the floor of
    /// those corridors.
    #[verifier::rlimit(40)]
    pub fn build_coridoors(&mut self, rooms: &Vec<Rectangle>, rng: &mut ThreadRng) -> (flips: Ghost<
        Seq<bool>,
    >)
        requires
            old(self).wf(),
            old(self).holds_centres(rooms@),
        ensures
            flips@.len() == link_plan(centres_of(rooms@)).len(),
            final(self).is_carving_of(
                old(self),
                corridors_region(centres_of(rooms@), link_plan(centres_of(rooms@)), flips@),
            ),
    {
        let mut centres: Vec<Point> = Vec::new();
        let mut i: usize = 0;
        while i < rooms.len()
            invariant
                i <= rooms.len(),
                self.holds_centres(rooms@),
                centres@.len() == i,
                forall|k: int| 0 <= k < i ==> #[trigger] centres@[k] == rooms@[k].spec_centre(),
            decreases rooms.len() - i,
        {
            let ghost room = rooms@[i as int];
            centres.push(rooms[i].centre());
            i += 1;
        }
        assert(centres@ == centres_of(rooms@));
        let links = plan_links(&centres);
        let ghost mut flips: Seq<bool> = Seq::empty();
        proof {
            assert forall|p: Point| self.in_map(p) implies #[trigger] self.tile_at(p) == old(
                self,
            ).tile_at(p) by {}
            assert(links@.take(0).len() == 0);
        }
        let mut k: usize = 0;
        while k < links.len()
            invariant
                k <= links.len(),
                self.wf(),
                self.holds_centres(rooms@),
                centres@ == centres_of(rooms@),
                links_within(links@, centres@.len() as int),
                flips.len() == k,
                self.is_carving_of(
                    old(self),
                    corridors_region(centres@, links@.take(k as int), flips),
                ),
            decreases links.len() - k,
        {
            let (from, to) = links[k];
            let ghost before = *self;
            let ghost flips_before = flips;
            proof {
                assert(links@[k as int] == (from, to));
                assert(rooms@[from as int].spec_centre() == centres@[from as int]);
                assert(rooms@[to as int].spec_centre() == centres@[to as int]);
            }
            let horizontal_first = gen_weighted_bool(rng, 2);
            self.create_corridor(centres[from], centres[to], horizontal_first);
            proof {
                flips = flips.push(horizontal_first);
                let done = links@.take(k as int);
                let now = links@.take(k + 1);
                assert(now.drop_last() == done);
                assert(now.last() == (from, to));
                lemma_corridors_flips(centres@, done, flips_before, flips);
                lemma_carving_twice(
                    *old(self),
                    before,
                    *self,
                    corridors_region(centres@, done, flips_before),
                    l_path(centres@[from as int], centres@[to as int], horizontal_first),
                );
            }
            k += 1;
        }
        proof {
            assert(links@.take(links@.len() as int) == links@);
        }
        Ghost(flips)
    }

    /// Digs an L-shaped corridor from `from` to `to`: first along the row of
    /// `from` and then along the column of `to` if `horizontal_first`, else
    /// first along the column of `from` and then along the row of `to`.
    pub fn create_corridor(&mut self, from: Point, to: Point, horizontal_first: bool)
        requires
            old(self).wf(),
            old(self).in_map(from),
            old(self).in_map(to),
        ensures
            final(self).is_carving_of(old(self), l_path(from, to, horizontal_first)),
    {
        let ghost before = *self;
        if horizontal_first {
            let first = self.create_h_tunnel(from.x, to.x, from.y);
            let ghost between = *self;
            let second = self.create_v_tunnel(to.x, from.y, to.y);
            proof {
                lemma_carving_twice(
                    before,
                    between,
                    *self,
                    h_run(from.x as int, to.x as int, from.y as int),
                    v_run(to.x as int, from.y as int, to.y as int),
                );
            }
        } else {
            let first = self.create_v_tunnel(from.x, from.y, to.y);
            let ghost between = *self;
            let second = self.create_h_tunnel(from.x, to.x, to.y);
            proof {
                lemma_carving_twice(
                    before,
                    between,
                    *self,
                    v_run(from.x as int, from.y as int, to.y as int),
                    h_run(from.x as int, to.x as int, to.y as int),
                );
            }
        }
    }
}

} // verus!

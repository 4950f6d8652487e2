//! Ranking by a key, with items of equal key kept in their order.

use vstd::prelude::*;

verus! {

/// `sorted` with `e` put in behind every item whose key is at most that of
/// `e`.
pub open spec fn insert_by_key(sorted: Seq<usize>, e: usize, key: spec_fn(usize) -> int) -> Seq<
    usize,
>
    decreases sorted.len(),
{
    if sorted.len() > 0 && key(sorted.last()) > key(e) {
        insert_by_key(sorted.drop_last(), e, key).push(sorted.last())
    } else {
        sorted.push(e)
    }
}

/// The items of `s` in the order of their keys, least first. Items of equal
/// key stay in the order that they have in `s`.
pub open spec fn stable_sort(s: Seq<usize>, key: spec_fn(usize) -> int) -> Seq<usize>
    decreases s.len(),
{
    if s.len() == 0 {
        s
    } else {
        insert_by_key(stable_sort(s.drop_last(), key), s.last(), key)
    }
}

/// Where `e` goes when it is put into `sorted` by its key: `insert_by_key`
/// is an insertion at the place behind the last item whose key is at most
/// that of `e`.
proof fn lemma_insert_at(sorted: Seq<usize>, e: usize, key: spec_fn(usize) -> int, pos: int)
    requires
        0 <= pos <= sorted.len(),
        forall|k: int| pos <= k < sorted.len() ==> key(#[trigger] sorted[k]) > key(e),
        pos > 0 ==> key(sorted[pos - 1]) <= key(e),
    ensures
        insert_by_key(sorted, e, key) == sorted.insert(pos, e),
    decreases sorted.len() - pos,
{
    if pos == sorted.len() {
        assert(sorted.insert(pos, e) == sorted.push(e));
    } else {
        let rest = sorted.drop_last();
        lemma_insert_at(rest, e, key, pos);
        assert(rest.insert(pos, e).push(sorted.last()) == sorted.insert(pos, e));
    }
}

/// Puts `e` into `sorted` behind the last item whose key is at most its own.
fn insert_ranked(sorted: &mut Vec<usize>, e: usize, keys: &Vec<i64>)
    requires
        e < keys.len(),
        forall|k: int| 0 <= k < old(sorted)@.len() ==> (#[trigger] old(sorted)@[k]) < keys.len(),
    ensures
        final(sorted)@ == insert_by_key(old(sorted)@, e, |j: usize| keys@[j as int] as int),
        forall|k: int|
            0 <= k < final(sorted)@.len() ==> (#[trigger] final(sorted)@[k]) < keys.len(),
{
    let ghost key = |j: usize| keys@[j as int] as int;
    let mut pos: usize = sorted.len();
    while pos > 0 && keys[sorted[pos - 1]] > keys[e]
        invariant
            pos <= sorted.len(),
            sorted@ == old(sorted)@,
            e < keys.len(),
            forall|k: int| 0 <= k < sorted@.len() ==> (#[trigger] sorted@[k]) < keys.len(),
            forall|k: int|
                pos <= k < sorted@.len() ==> keys@[(#[trigger] sorted@[k]) as int]
                    > keys@[e as int],
        decreases pos,
    {
        pos -= 1;
    }
    proof {
        lemma_insert_at(sorted@, e, key, pos as int);
    }
    sorted.insert(pos, e);
}

/// Ranks the rooms of `order` by their keys, least first; rooms of equal key
/// stay in the order that they had.
pub(crate) fn rank_rooms(order: &Vec<usize>, keys: &Vec<i64>) -> (ranked: Vec<usize>)
    requires
        forall|k: int| 0 <= k < order@.len() ==> (#[trigger] order@[k]) < keys.len(),
    ensures
        ranked@ == stable_sort(order@, |j: usize| keys@[j as int] as int),
        ranked@.len() == order@.len(),
        forall|k: int| 0 <= k < ranked@.len() ==> (#[trigger] ranked@[k]) < keys.len(),
{
    let ghost key = |j: usize| keys@[j as int] as int;
    let mut ranked: Vec<usize> = Vec::new();
    let mut k: usize = 0;
    while k < order.len()
        invariant
            k <= order.len(),
            ranked@ == stable_sort(order@.take(k as int), key),
            ranked@.len() == k,
            key == (|j: usize| keys@[j as int] as int),
            forall|k: int| 0 <= k < order@.len() ==> (#[trigger] order@[k]) < keys.len(),
            forall|k: int| 0 <= k < ranked@.len() ==> (#[trigger] ranked@[k]) < keys.len(),
        decreases order.len() - k,
    {
        proof {
            assert(order@.take(k + 1).drop_last() == order@.take(k as int));
            lemma_insert_len(ranked@, order@[k as int], key);
        }
        insert_ranked(&mut ranked, order[k], keys);
        k += 1;
    }
    proof {
        assert(order@.take(order@.len() as int) == order@);
    }
    ranked
}

/// Putting an item in makes the sequence longer by one.
proof fn lemma_insert_len(sorted: Seq<usize>, e: usize, key: spec_fn(usize) -> int)
    ensures
        insert_by_key(sorted, e, key).len() == sorted.len() + 1,
    decreases sorted.len(),
{
    if sorted.len() > 0 && key(sorted.last()) > key(e) {
        lemma_insert_len(sorted.drop_last(), e, key);
    }
}

/// `s` is in the order of the keys of its items, least first.
pub open spec fn is_ranked(s: Seq<usize>, key: spec_fn(usize) -> int) -> bool {
    forall|a: int, b: int| 0 <= a < b < s.len() ==> key(#[trigger] s[a]) <= key(#[trigger] s[b])
}

/// Putting an item into a ranked sequence leaves it ranked, and adds that
/// item and no other.
pub proof fn lemma_insert_ranked(sorted: Seq<usize>, e: usize, key: spec_fn(usize) -> int)
    requires
        is_ranked(sorted, key),
    ensures
        is_ranked(insert_by_key(sorted, e, key), key),
        insert_by_key(sorted, e, key).to_multiset() == sorted.to_multiset().insert(e),
    decreases sorted.len(),
{
    broadcast use vstd::seq_lib::group_to_multiset_ensures;

    let out = insert_by_key(sorted, e, key);
    if sorted.len() > 0 && key(sorted.last()) > key(e) {
        let rest = sorted.drop_last();
        let last = sorted.last();
        assert forall|a: int, b: int| 0 <= a < b < rest.len() implies key(#[trigger] rest[a])
            <= key(#[trigger] rest[b]) by {
            assert(key(sorted[a]) <= key(sorted[b]));
        }
        lemma_insert_ranked(rest, e, key);
        let inner = insert_by_key(rest, e, key);
        assert(out == inner.push(last));
        assert forall|a: int, b: int| 0 <= a < b < out.len() implies key(#[trigger] out[a])
            <= key(#[trigger] out[b]) by {
            if b < inner.len() {
                assert(key(inner[a]) <= key(inner[b]));
            } else {
                assert(inner.to_multiset().count(inner[a]) > 0);
                if inner[a] != e {
                    assert(rest.to_multiset().count(inner[a]) > 0);
                    assert(rest.contains(inner[a]));
                    let at = choose|at: int| 0 <= at < rest.len() && rest[at] == inner[a];
                    assert(key(sorted[at]) <= key(sorted[sorted.len() - 1]));
                }
            }
        }
        assert(sorted == rest.push(last));
        assert(out.to_multiset() == sorted.to_multiset().insert(e));
    } else {
        assert forall|a: int, b: int| 0 <= a < b < out.len() implies key(#[trigger] out[a])
            <= key(#[trigger] out[b]) by {
            if b < sorted.len() {
                assert(key(sorted[a]) <= key(sorted[b]));
            } else if sorted.len() > 0 {
                assert(key(sorted[a]) <= key(sorted[sorted.len() - 1]));
            }
        }
    }
}

/// The items of `s` whose key is `k`, in the order that they have in `s`.
pub open spec fn with_key(s: Seq<usize>, key: spec_fn(usize) -> int, k: int) -> Seq<usize> {
    s.filter(|e: usize| key(e) == k)
}

/// An item that is put behind the others comes last among those of its
/// key, and nowhere among those of another key.
proof fn lemma_with_key_push(s: Seq<usize>, e: usize, key: spec_fn(usize) -> int, k: int)
    ensures
        with_key(s.push(e), key, k) == if key(e) == k {
            with_key(s, key, k).push(e)
        } else {
            with_key(s, key, k)
        },
{
    reveal_with_fuel(Seq::filter, 2);
    assert(s.push(e).drop_last() == s);
}

/// Putting an item in leaves the items of each key in the order in which
/// they came.
pub proof fn lemma_insert_keeps_order(
    sorted: Seq<usize>,
    e: usize,
    key: spec_fn(usize) -> int,
    k: int,
)
    ensures
        with_key(insert_by_key(sorted, e, key), key, k) == with_key(sorted.push(e), key, k),
    decreases sorted.len(),
{
    if sorted.len() > 0 && key(sorted.last()) > key(e) {
        let rest = sorted.drop_last();
        let last = sorted.last();
        let inner = insert_by_key(rest, e, key);
        lemma_insert_keeps_order(rest, e, key, k);
        lemma_with_key_push(inner, last, key, k);
        lemma_with_key_push(rest, e, key, k);
        lemma_with_key_push(rest, last, key, k);
        lemma_with_key_push(sorted, e, key, k);
        assert(sorted == rest.push(last));
    }
}

/// A ranking leaves the items of each key in the order that they had.
pub proof fn lemma_stable_sort_keeps_order(s: Seq<usize>, key: spec_fn(usize) -> int, k: int)
    ensures
        with_key(stable_sort(s, key), key, k) == with_key(s, key, k),
    decreases s.len(),
{
    if s.len() > 0 {
        let rest = s.drop_last();
        let ranked = stable_sort(rest, key);
        lemma_stable_sort_keeps_order(rest, key, k);
        lemma_insert_keeps_order(ranked, s.last(), key, k);
        lemma_with_key_push(ranked, s.last(), key, k);
        lemma_with_key_push(rest, s.last(), key, k);
        assert(s == rest.push(s.last()));
    }
}

/// A ranking holds the items that were ranked, each as often as it was
/// there, in the order of their keys.
pub proof fn lemma_stable_sort_ranks(s: Seq<usize>, key: spec_fn(usize) -> int)
    ensures
        is_ranked(stable_sort(s, key), key),
        stable_sort(s, key).to_multiset() == s.to_multiset(),
    decreases s.len(),
{
    broadcast use vstd::seq_lib::group_to_multiset_ensures;

    if s.len() > 0 {
        lemma_stable_sort_ranks(s.drop_last(), key);
        lemma_insert_ranked(stable_sort(s.drop_last(), key), s.last(), key);
        assert(s == s.drop_last().push(s.last()));
    }
}

/// Every item of `s` is less than `n`.
pub open spec fn all_below(s: Seq<usize>, n: int) -> bool {
    forall|k: int| 0 <= k < s.len() ==> (#[trigger] s[k]) < n
}

/// Putting an item in by one key or by another that agrees with it on the
/// items at hand comes to the same; and it adds that item and no other.
pub proof fn lemma_insert_agrees(
    sorted: Seq<usize>,
    e: usize,
    k1: spec_fn(usize) -> int,
    k2: spec_fn(usize) -> int,
    n: int,
)
    requires
        all_below(sorted, n),
        e < n,
        forall|j: usize| j < n ==> #[trigger] k1(j) == k2(j),
    ensures
        insert_by_key(sorted, e, k1) == insert_by_key(sorted, e, k2),
        all_below(insert_by_key(sorted, e, k1), n),
        insert_by_key(sorted, e, k1).len() == sorted.len() + 1,
    decreases sorted.len(),
{
    if sorted.len() > 0 {
        assert(k1(sorted.last()) == k2(sorted.last()));
        assert(k1(e) == k2(e));
        if k1(sorted.last()) > k1(e) {
            lemma_insert_agrees(sorted.drop_last(), e, k1, k2, n);
        }
    }
}

/// Ranking by one key or by another that agrees with it on the items at hand
/// comes to the same; and it neither adds nor drops an item.
pub proof fn lemma_sort_agrees(
    s: Seq<usize>,
    k1: spec_fn(usize) -> int,
    k2: spec_fn(usize) -> int,
    n: int,
)
    requires
        all_below(s, n),
        forall|j: usize| j < n ==> #[trigger] k1(j) == k2(j),
    ensures
        stable_sort(s, k1) == stable_sort(s, k2),
        all_below(stable_sort(s, k1), n),
        stable_sort(s, k1).len() == s.len(),
    decreases s.len(),
{
    if s.len() > 0 {
        lemma_sort_agrees(s.drop_last(), k1, k2, n);
        lemma_insert_agrees(stable_sort(s.drop_last(), k1), s.last(), k1, k2, n);
    }
}

} // verus!

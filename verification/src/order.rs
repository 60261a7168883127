//! The order in which names and paths are listed: character by character,
//! then name by name, a proper prefix first.

use vstd::prelude::*;
use crate::lines::{copy_chars, line_views};

verus! {

/// How one value stands to another in the order.
#[derive(Clone, Copy, Debug, PartialEq, Eq, Structural)]
pub enum Rank {
    /// The first comes before the second.
    Before,
    /// The two are equal.
    Same,
    /// The first comes after the second.
    After,
}

/// Whether `a` comes before `b`: at the first place where they differ `a`
/// has the smaller character, or `a` ends there and `b` goes on.
pub open spec fn text_less(a: Seq<char>, b: Seq<char>) -> bool
    decreases a.len(),
{
    if b.len() == 0 {
        false
    } else if a.len() == 0 {
        true
    } else if a[0] != b[0] {
        a[0] < b[0]
    } else {
        text_less(a.skip(1), b.skip(1))
    }
}

/// Whether the names `a` come before the names `b`: at the first place
/// where they differ `a` has the smaller name, or `a` ends there and `b`
/// goes on.
pub open spec fn key_less(a: Seq<Seq<char>>, b: Seq<Seq<char>>) -> bool
    decreases a.len(),
{
    if b.len() == 0 {
        false
    } else if a.len() == 0 {
        true
    } else if a[0] != b[0] {
        text_less(a[0], b[0])
    } else {
        key_less(a.skip(1), b.skip(1))
    }
}

/// Whether the keys stand in strictly rising order.
pub open spec fn strictly_rising(keys: Seq<Seq<Seq<char>>>) -> bool {
    forall|i: int, j: int| 0 <= i < j < keys.len() ==> key_less(keys[i], keys[j])
}

/// No text comes before itself.
pub proof fn lemma_text_less_irreflexive(a: Seq<char>)
    ensures
        !text_less(a, a),
    decreases a.len(),
{
    if a.len() > 0 {
        lemma_text_less_irreflexive(a.skip(1));
    }
}

/// Of two different texts one comes before the other.
pub proof fn lemma_text_less_total(a: Seq<char>, b: Seq<char>)
    ensures
        text_less(a, b) || a == b || text_less(b, a),
        !(text_less(a, b) && text_less(b, a)),
    decreases a.len(),
{
    if a.len() == 0 || b.len() == 0 {
        if a.len() == 0 && b.len() == 0 {
            assert(a =~= b);
        }
    } else if a[0] != b[0] {
    } else {
        lemma_text_less_total(a.skip(1), b.skip(1));
        if a.skip(1) == b.skip(1) {
            assert(a =~= seq![a[0]] + a.skip(1));
            assert(b =~= seq![b[0]] + b.skip(1));
        }
    }
}

/// What comes before a text comes before all that the text comes before.
pub proof fn lemma_text_less_transitive(a: Seq<char>, b: Seq<char>, c: Seq<char>)
    requires
        text_less(a, b),
        text_less(b, c),
    ensures
        text_less(a, c),
    decreases a.len(),
{
    if a.len() == 0 {
    } else if a[0] != b[0] {
    } else if b[0] != c[0] {
    } else {
        lemma_text_less_transitive(a.skip(1), b.skip(1), c.skip(1));
    }
}

/// No key comes before itself.
pub proof fn lemma_key_less_irreflexive(a: Seq<Seq<char>>)
    ensures
        !key_less(a, a),
    decreases a.len(),
{
    if a.len() > 0 {
        lemma_key_less_irreflexive(a.skip(1));
    }
}

/// Of two different keys one comes before the other.
pub proof fn lemma_key_less_total(a: Seq<Seq<char>>, b: Seq<Seq<char>>)
    ensures
        key_less(a, b) || a == b || key_less(b, a),
        !(key_less(a, b) && key_less(b, a)),
    decreases a.len(),
{
    if a.len() == 0 || b.len() == 0 {
        if a.len() == 0 && b.len() == 0 {
            assert(a =~= b);
        }
    } else if a[0] != b[0] {
        lemma_text_less_total(a[0], b[0]);
    } else {
        lemma_key_less_total(a.skip(1), b.skip(1));
        if a.skip(1) == b.skip(1) {
            assert(a =~= seq![a[0]] + a.skip(1));
            assert(b =~= seq![b[0]] + b.skip(1));
        }
    }
}

/// What comes before a key comes before all that the key comes before.
pub proof fn lemma_key_less_transitive(a: Seq<Seq<char>>, b: Seq<Seq<char>>, c: Seq<Seq<char>>)
    requires
        key_less(a, b),
        key_less(b, c),
    ensures
        key_less(a, c),
    decreases a.len(),
{
    if a.len() == 0 {
    } else if a[0] != b[0] {
        if b[0] != c[0] {
            lemma_text_less_transitive(a[0], b[0], c[0]);
            lemma_text_less_irreflexive(a[0]);
        }
    } else if b[0] != c[0] {
    } else {
        lemma_key_less_transitive(a.skip(1), b.skip(1), c.skip(1));
    }
}

/// How the text `a` stands to the text `b`.
pub fn compare_text(a: &Vec<char>, b: &Vec<char>) -> (r: Rank)
    ensures
        r == Rank::Before <==> text_less(a@, b@),
        r == Rank::Same <==> a@ == b@,
        r == Rank::After <==> text_less(b@, a@),
{
    let mut i: usize = 0;
    proof {
        assert(a@.skip(0) == a@);
        assert(b@.skip(0) == b@);
    }
    while i < a.len() && i < b.len()
        invariant
            i <= a.len(),
            i <= b.len(),
            a@.take(i as int) == b@.take(i as int),
            text_less(a@, b@) == text_less(a@.skip(i as int), b@.skip(i as int)),
            text_less(b@, a@) == text_less(b@.skip(i as int), a@.skip(i as int)),
        decreases a.len() - i,
    {
        let x: char = a[i];
        let y: char = b[i];
        proof {
            assert(a@.skip(i as int)[0] == a@[i as int]);
            assert(b@.skip(i as int)[0] == b@[i as int]);
            assert(a@.skip(i as int).skip(1) == a@.skip(i + 1));
            assert(b@.skip(i as int).skip(1) == b@.skip(i + 1));
        }
        if x != y {
            proof {
                lemma_text_less_total(a@, b@);
            }
            if x < y {
                return Rank::Before;
            } else {
                return Rank::After;
            }
        }
        proof {
            assert(a@[i as int] == b@[i as int]);
            assert(a@.take(i + 1) == a@.take(i as int).push(a@[i as int]));
            assert(b@.take(i + 1) == b@.take(i as int).push(b@[i as int]));
        }
        i += 1;
    }
    proof {
        lemma_text_less_total(a@, b@);
        lemma_text_less_irreflexive(a@);
        if a.len() == b.len() {
            assert(a@.take(i as int) == a@);
            assert(b@.take(i as int) == b@);
        }
    }
    if a.len() == b.len() {
        Rank::Same
    } else if i == a.len() {
        Rank::Before
    } else {
        Rank::After
    }
}

/// How the names `a` stand to the names `b`.
pub fn compare_keys(a: &Vec<Vec<char>>, b: &Vec<Vec<char>>) -> (r: Rank)
    ensures
        r == Rank::Before <==> key_less(line_views(a@), line_views(b@)),
        r == Rank::Same <==> line_views(a@) == line_views(b@),
        r == Rank::After <==> key_less(line_views(b@), line_views(a@)),
{
    let ghost av = line_views(a@);
    let ghost bv = line_views(b@);
    let mut i: usize = 0;
    proof {
        assert(av.skip(0) == av);
        assert(bv.skip(0) == bv);
    }
    while i < a.len() && i < b.len()
        invariant
            i <= a.len(),
            i <= b.len(),
            av == line_views(a@),
            bv == line_views(b@),
            av.take(i as int) == bv.take(i as int),
            key_less(av, bv) == key_less(av.skip(i as int), bv.skip(i as int)),
            key_less(bv, av) == key_less(bv.skip(i as int), av.skip(i as int)),
        decreases a.len() - i,
    {
        let rank = compare_text(&a[i], &b[i]);
        proof {
            assert(av.skip(i as int)[0] == av[i as int]);
            assert(bv.skip(i as int)[0] == bv[i as int]);
            assert(av.skip(i as int).skip(1) == av.skip(i + 1));
            assert(bv.skip(i as int).skip(1) == bv.skip(i + 1));
            assert(av[i as int] == a@[i as int]@);
            assert(bv[i as int] == b@[i as int]@);
        }
        match rank {
            Rank::Before => {
                proof {
                    lemma_key_less_total(av, bv);
                    lemma_text_less_irreflexive(av[i as int]);
                }
                return Rank::Before;
            },
            Rank::After => {
                proof {
                    lemma_key_less_total(av, bv);
                    lemma_text_less_irreflexive(av[i as int]);
                }
                return Rank::After;
            },
            Rank::Same => {},
        }
        proof {
            assert(av.take(i + 1) == av.take(i as int).push(av[i as int]));
            assert(bv.take(i + 1) == bv.take(i as int).push(bv[i as int]));
        }
        i += 1;
    }
    proof {
        lemma_key_less_total(av, bv);
        lemma_key_less_irreflexive(av);
        if a.len() == b.len() {
            assert(av.take(i as int) == av);
            assert(bv.take(i as int) == bv);
        }
    }
    if a.len() == b.len() {
        Rank::Same
    } else if i == a.len() {
        Rank::Before
    } else {
        Rank::After
    }
}

/// The keys that `order` picks out of `keys`, in the order of `order`.
pub open spec fn picked(keys: Seq<Seq<Seq<char>>>, order: Seq<usize>) -> Seq<Seq<Seq<char>>> {
    Seq::new(order.len(), |i: int| keys[order[i] as int])
}

/// The views of a vector of keys.
pub open spec fn key_views(keys: Seq<Vec<Vec<char>>>) -> Seq<Seq<Seq<char>>> {
    Seq::new(keys.len(), |i: int| line_views(keys[i]@))
}

/// Whether `order` holds indices of `keys` only.
pub open spec fn picks_within(keys: Seq<Seq<Seq<char>>>, order: Seq<usize>) -> bool {
    forall|i: int| 0 <= i < order.len() ==> (#[trigger] order[i]) < keys.len()
}

/// Whether every key stands at one of the indices in `order`.
pub open spec fn picks_every_key(keys: Seq<Seq<Seq<char>>>, order: Seq<usize>) -> bool {
    forall|k: int|
        0 <= k < keys.len() ==> exists|i: int|
            0 <= i < order.len() && keys[order[i] as int] == #[trigger] keys[k]
}

/// Whether no key before an index in `order` equals the key at it.
pub open spec fn picks_first_of_equals(keys: Seq<Seq<Seq<char>>>, order: Seq<usize>) -> bool {
    forall|i: int, k: int|
        0 <= i < order.len() && 0 <= k < order[i] ==> #[trigger] keys[k] != keys[#[trigger] order[i] as int]
}

/// Whether `order` lists `keys` in rising order, each different key once:
/// it holds indices of `keys`; the keys at them rise strictly; each key
/// stands at one of them; and of equal keys the first is the one listed.
pub open spec fn is_rising_order(keys: Seq<Seq<Seq<char>>>, order: Seq<usize>) -> bool {
    &&& picks_within(keys, order)
    &&& strictly_rising(picked(keys, order))
    &&& picks_every_key(keys, order)
    &&& picks_first_of_equals(keys, order)
}

/// A rising order of all keys but the last is one of all keys, where the
/// last key equals one that is listed.
proof fn lemma_order_with_known_key(keys: Seq<Seq<Seq<char>>>, order: Seq<usize>, at: int)
    requires
        keys.len() > 0,
        is_rising_order(keys.drop_last(), order),
        0 <= at < order.len(),
        keys[order[at] as int] == keys.last(),
    ensures
        is_rising_order(keys, order),
{
    let seen = keys.drop_last();
    assert(picks_within(keys, order)) by {
        assert forall|i: int| 0 <= i < order.len() implies (#[trigger] order[i]) < keys.len() by {
            assert(order[i] < seen.len());
        }
    }
    assert(picked(keys, order) =~= picked(seen, order)) by {
        assert forall|i: int| 0 <= i < order.len() implies picked(keys, order)[i] == picked(
            seen,
            order,
        )[i] by {
            assert(order[i] < seen.len());
        }
    }
    assert(picks_every_key(keys, order)) by {
        assert forall|k: int| 0 <= k < keys.len() implies exists|i: int|
            0 <= i < order.len() && keys[order[i] as int] == #[trigger] keys[k] by {
            if k < seen.len() {
                assert(seen[k] == keys[k]);
                let i = choose|i: int| 0 <= i < order.len() && seen[order[i] as int] == seen[k];
                assert(order[i] < seen.len());
                assert(keys[order[i] as int] == keys[k]);
            } else {
                assert(keys[order[at] as int] == keys[k]);
            }
        }
    }
    assert(picks_first_of_equals(keys, order)) by {
        assert forall|i: int, k: int| 0 <= i < order.len() && 0 <= k < order[i] implies #[trigger] keys[k]
            != keys[#[trigger] order[i] as int] by {
            assert(order[i] < seen.len());
            assert(seen[k] != seen[order[i] as int]);
        }
    }
}

/// Where the places of `order` are found in `order` with one more index
/// put in at `at`.
proof fn lemma_places_after_insert(order: Seq<usize>, at: int, index: usize)
    requires
        0 <= at <= order.len(),
    ensures
        order.insert(at, index).len() == order.len() + 1,
        order.insert(at, index)[at] == index,
        forall|i: int| 0 <= i < at ==> #[trigger] order.insert(at, index)[i] == order[i],
        forall|i: int|
            at < i <= order.len() ==> #[trigger] order.insert(at, index)[i] == order[i - 1],
{
    order.insert_ensures(at, index);
    let longer = order.insert(at, index);
    assert forall|i: int| at < i <= order.len() implies #[trigger] longer[i] == order[i - 1] by {
        assert(longer[(i - 1) + 1] == order[i - 1]);
    }
}

/// The keys at the places of `order` stay in rising order when the index of
/// a new last key is put between the keys before it and the keys after it.
proof fn lemma_insert_keeps_rising(keys: Seq<Seq<Seq<char>>>, order: Seq<usize>, at: int)
    requires
        keys.len() > 0,
        keys.len() - 1 <= usize::MAX,
        picks_within(keys.drop_last(), order),
        strictly_rising(picked(keys.drop_last(), order)),
        0 <= at <= order.len(),
        forall|i: int| 0 <= i < at ==> key_less(keys[#[trigger] order[i] as int], keys.last()),
        forall|i: int|
            at <= i < order.len() ==> key_less(keys.last(), keys[#[trigger] order[i] as int]),
    ensures
        strictly_rising(picked(keys, order.insert(at, (keys.len() - 1) as usize))),
{
    let seen = keys.drop_last();
    let last = (keys.len() - 1) as usize;
    let longer = order.insert(at, last);
    lemma_places_after_insert(order, at, last);
    let old_keys = picked(seen, order);
    let new_keys = picked(keys, longer);
    assert forall|i: int| 0 <= i < order.len() implies keys[#[trigger] order[i] as int]
        == old_keys[i] by {
        assert(order[i] < seen.len());
    }
    assert forall|i: int, j: int| 0 <= i < j < new_keys.len() implies key_less(
        new_keys[i],
        new_keys[j],
    ) by {
        if i < at && j < at {
            assert(new_keys[i] == old_keys[i]);
            assert(new_keys[j] == old_keys[j]);
        } else if i < at && j == at {
            assert(new_keys[i] == keys[order[i] as int]);
            assert(new_keys[j] == keys.last());
        } else if i < at && j > at {
            assert(new_keys[i] == old_keys[i]);
            assert(new_keys[j] == old_keys[j - 1]);
            assert(key_less(old_keys[i], old_keys[j - 1]));
        } else if i == at {
            assert(new_keys[i] == keys.last());
            assert(new_keys[j] == keys[order[j - 1] as int]);
        } else {
            assert(new_keys[i] == old_keys[i - 1]);
            assert(new_keys[j] == old_keys[j - 1]);
            assert(key_less(old_keys[i - 1], old_keys[j - 1]));
        }
    }
}

/// Every key stands at a place of `order` with the index of the new last
/// key put in.
proof fn lemma_insert_keeps_every_key(keys: Seq<Seq<Seq<char>>>, order: Seq<usize>, at: int)
    requires
        keys.len() > 0,
        keys.len() - 1 <= usize::MAX,
        picks_within(keys.drop_last(), order),
        picks_every_key(keys.drop_last(), order),
        0 <= at <= order.len(),
    ensures
        picks_within(keys, order.insert(at, (keys.len() - 1) as usize)),
        picks_every_key(keys, order.insert(at, (keys.len() - 1) as usize)),
{
    let seen = keys.drop_last();
    let last = (keys.len() - 1) as usize;
    let longer = order.insert(at, last);
    lemma_places_after_insert(order, at, last);
    assert forall|i: int| 0 <= i < longer.len() implies (#[trigger] longer[i]) < keys.len() by {
        if i < at {
            assert(order[i] < seen.len());
        } else if i > at {
            assert(order[i - 1] < seen.len());
        }
    }
    assert forall|k: int| 0 <= k < keys.len() implies exists|i: int|
        0 <= i < longer.len() && keys[longer[i] as int] == #[trigger] keys[k] by {
        if k < seen.len() {
            assert(seen[k] == keys[k]);
            let i = choose|i: int| 0 <= i < order.len() && seen[order[i] as int] == seen[k];
            assert(order[i] < seen.len());
            let ni = if i < at { i } else { i + 1 };
            assert(longer[ni] == order[i]);
            assert(keys[longer[ni] as int] == keys[k]);
        } else {
            assert(keys[longer[at] as int] == keys[k]);
        }
    }
}

/// Of equal keys the first stays the one listed when the index of a new
/// last key, which equals no key listed, is put in.
proof fn lemma_insert_keeps_first_of_equals(
    keys: Seq<Seq<Seq<char>>>,
    order: Seq<usize>,
    at: int,
)
    requires
        keys.len() > 0,
        keys.len() - 1 <= usize::MAX,
        picks_within(keys.drop_last(), order),
        picks_every_key(keys.drop_last(), order),
        picks_first_of_equals(keys.drop_last(), order),
        0 <= at <= order.len(),
        forall|i: int| 0 <= i < order.len() ==> keys[#[trigger] order[i] as int] != keys.last(),
    ensures
        picks_first_of_equals(keys, order.insert(at, (keys.len() - 1) as usize)),
{
    let seen = keys.drop_last();
    let last = (keys.len() - 1) as usize;
    let key = keys.last();
    let longer = order.insert(at, last);
    lemma_places_after_insert(order, at, last);
    assert forall|i: int, k: int| 0 <= i < longer.len() && 0 <= k < longer[i] implies #[trigger] keys[k]
        != keys[#[trigger] longer[i] as int] by {
        if i == at {
            if keys[k] == key {
                assert(seen[k] == keys[k]);
                let w = choose|w: int| 0 <= w < order.len() && seen[order[w] as int] == seen[k];
                assert(order[w] < seen.len());
                assert(keys[order[w] as int] == key);
            }
        } else {
            let oi = if i < at { i } else { i - 1 };
            assert(longer[i] == order[oi]);
            assert(order[oi] < seen.len());
            assert(seen[k] != seen[order[oi] as int]);
        }
    }
}

/// A rising order of all keys but the last, with the index of the last key
/// put between the keys before it and the keys after it, is a rising order
/// of all keys.
proof fn lemma_order_with_new_key(keys: Seq<Seq<Seq<char>>>, order: Seq<usize>, at: int)
    requires
        keys.len() > 0,
        keys.len() - 1 <= usize::MAX,
        is_rising_order(keys.drop_last(), order),
        0 <= at <= order.len(),
        forall|i: int| 0 <= i < at ==> key_less(keys[#[trigger] order[i] as int], keys.last()),
        forall|i: int|
            at <= i < order.len() ==> key_less(keys.last(), keys[#[trigger] order[i] as int]),
    ensures
        is_rising_order(keys, order.insert(at, (keys.len() - 1) as usize)),
{
    lemma_insert_keeps_rising(keys, order, at);
    lemma_insert_keeps_every_key(keys, order, at);
    assert forall|i: int| 0 <= i < order.len() implies keys[#[trigger] order[i] as int]
        != keys.last() by {
        lemma_key_less_irreflexive(keys.last());
    }
    lemma_insert_keeps_first_of_equals(keys, order, at);
}

/// The indices of the keys in rising order, each different key once.
pub fn rising_order(keys: &Vec<Vec<Vec<char>>>) -> (order: Vec<usize>)
    ensures
        is_rising_order(key_views(keys@), order@),
{
    let ghost kv = key_views(keys@);
    let mut order: Vec<usize> = Vec::new();
    let mut k: usize = 0;
    assert(picked(kv.take(0), order@) =~= Seq::empty());
    while k < keys.len()
        invariant
            k <= keys.len(),
            kv == key_views(keys@),
            is_rising_order(kv.take(k as int), order@),
        decreases keys.len() - k,
    {
        let ghost seen = kv.take(k as int);
        let ghost next = kv.take(k + 1);
        // the first place whose key does not come before the new key
        let mut at: usize = 0;
        let mut found_same = false;
        let mut stop = false;
        while at < order.len() && !stop
            invariant
                at <= order.len(),
                k < keys.len(),
                kv == key_views(keys@),
                seen == kv.take(k as int),
                picks_within(seen, order@),
                forall|i: int| 0 <= i < at ==> key_less(kv[#[trigger] order@[i] as int], kv[k as int]),
                found_same ==> stop,
                stop ==> at < order.len(),
                stop && found_same ==> kv[order@[at as int] as int] == kv[k as int],
                stop && !found_same ==> key_less(kv[k as int], kv[order@[at as int] as int]),
            decreases order.len() - at + (if stop { 0int } else { 1int }),
        {
            assert(order@[at as int] < seen.len());
            let rank = compare_keys(&keys[order[at]], &keys[k]);
            assert(kv[order@[at as int] as int] == line_views(keys@[order@[at as int] as int]@));
            assert(kv[k as int] == line_views(keys@[k as int]@));
            match rank {
                Rank::Before => {
                    at += 1;
                },
                Rank::Same => {
                    found_same = true;
                    stop = true;
                },
                Rank::After => {
                    stop = true;
                },
            }
        }
        proof {
            assert(next.drop_last() =~= seen);
            assert(next.last() == kv[k as int]);
            assert forall|i: int| 0 <= i < order.len() implies next[#[trigger] order@[i] as int]
                == kv[order@[i] as int] by {
                assert(order@[i] < seen.len());
            }
        }
        if found_same {
            proof {
                lemma_order_with_known_key(next, order@, at as int);
            }
        } else {
            proof {
                assert forall|i: int| at <= i < order.len() implies key_less(
                    next.last(),
                    next[#[trigger] order@[i] as int],
                ) by {
                    if i > at {
                        assert(order@[at as int] < seen.len());
                        assert(order@[i] < seen.len());
                        assert(key_less(picked(seen, order@)[at as int], picked(seen, order@)[i]));
                        lemma_key_less_transitive(
                            next.last(),
                            kv[order@[at as int] as int],
                            kv[order@[i] as int],
                        );
                    }
                }
                lemma_order_with_new_key(next, order@, at as int);
            }
            order.insert(at, k);
        }
        k += 1;
    }
    assert(kv.take(keys.len() as int) == kv);
    order
}

/// Whether the names stand in strictly rising order.
pub open spec fn names_rising(names: Seq<Seq<char>>) -> bool {
    forall|i: int, j: int| 0 <= i < j < names.len() ==> text_less(names[i], names[j])
}

/// Keys of one name each stand to each other as the names do.
pub proof fn lemma_single_name_keys(a: Seq<char>, b: Seq<char>)
    ensures
        key_less(seq![a], seq![b]) == text_less(a, b),
{
    lemma_text_less_irreflexive(a);
    assert(key_less(seq![a].skip(1), seq![b].skip(1)) == false);
}

/// The names in rising order, each different name once.
pub fn sort_names(names: &Vec<Vec<char>>) -> (sorted: Vec<Vec<char>>)
    ensures
        names_rising(line_views(sorted@)),
        forall|n: Seq<char>| line_views(sorted@).contains(n) <==> line_views(names@).contains(n),
{
    let ghost given = line_views(names@);
    let mut keys: Vec<Vec<Vec<char>>> = Vec::new();
    let mut i: usize = 0;
    while i < names.len()
        invariant
            i <= names.len(),
            given == line_views(names@),
            keys.len() == i,
            forall|j: int| 0 <= j < i ==> line_views(#[trigger] keys@[j]@) == seq![given[j]],
        decreases names.len() - i,
    {
        let name = crate::lines::copy_chars(&names[i]);
        let ghost name_view = name@;
        let mut key: Vec<Vec<char>> = Vec::new();
        key.push(name);
        assert(line_views(key@)[0] == name_view);
        assert(line_views(key@) =~= seq![given[i as int]]);
        keys.push(key);
        i += 1;
    }
    let order = rising_order(&keys);
    let ghost kv = key_views(keys@);
    assert forall|j: int| 0 <= j < names.len() implies #[trigger] kv[j] == seq![given[j]] by {
        assert(kv[j] == line_views(keys@[j]@));
    }
    let mut sorted: Vec<Vec<char>> = Vec::new();
    let mut k: usize = 0;
    while k < order.len()
        invariant
            k <= order.len(),
            given == line_views(names@),
            is_rising_order(kv, order@),
            kv.len() == names.len(),
            sorted.len() == k,
            forall|j: int| 0 <= j < k ==> (#[trigger] sorted@[j])@ == given[order@[j] as int],
        decreases order.len() - k,
    {
        assert(order@[k as int] < kv.len());
        let name = crate::lines::copy_chars(&names[order[k]]);
        assert(name@ == given[order@[k as int] as int]);
        sorted.push(name);
        k += 1;
    }
    proof {
        let out = line_views(sorted@);
        assert forall|a: int| 0 <= a < out.len() implies #[trigger] out[a]
            == given[order@[a] as int] && order@[a] < given.len() by {
            assert(out[a] == sorted@[a]@);
            assert(order@[a] < kv.len());
        }
        assert forall|a: int, b: int| 0 <= a < b < out.len() implies text_less(out[a], out[b]) by {
            assert(key_less(picked(kv, order@)[a], picked(kv, order@)[b]));
            assert(kv[order@[a] as int] == seq![given[order@[a] as int]]);
            assert(kv[order@[b] as int] == seq![given[order@[b] as int]]);
            lemma_single_name_keys(out[a], out[b]);
        }
        assert forall|n: Seq<char>| out.contains(n) <==> given.contains(n) by {
            if out.contains(n) {
                let a = choose|a: int| 0 <= a < out.len() && out[a] == n;
                assert(given[order@[a] as int] == n);
            }
            if given.contains(n) {
                let g = choose|g: int| 0 <= g < given.len() && given[g] == n;
                assert(kv[g] == seq![given[g]]);
                let a = choose|a: int| 0 <= a < order.len() && kv[order@[a] as int] == kv[g];
                let h = order@[a] as int;
                assert(h < kv.len());
                assert(kv[h] == seq![given[h]]);
                assert(seq![given[h]][0] == seq![given[g]][0]);
                assert(out[a] == n);
            }
        }
    }
    sorted
}

/// Two lists of names in rising order that hold the same names are the
/// same list.
pub proof fn lemma_rising_names_unique(a: Seq<Seq<char>>, b: Seq<Seq<char>>)
    requires
        names_rising(a),
        names_rising(b),
        forall|n: Seq<char>| a.contains(n) <==> b.contains(n),
    ensures
        a == b,
    decreases a.len(),
{
    if a.len() == 0 {
        if b.len() > 0 {
            assert(b.contains(b[0]));
            assert(a.contains(b[0]));
        }
        assert(a =~= b);
    } else {
        let top = a.last();
        assert(a.contains(top));
        assert(b.contains(top));
        let j = choose|j: int| 0 <= j < b.len() && b[j] == top;
        assert(b.contains(b.last()));
        assert(a.contains(b.last()));
        let i = choose|i: int| 0 <= i < a.len() && a[i] == b.last();
        lemma_text_less_total(top, b.last());
        lemma_text_less_irreflexive(top);
        if j < b.len() - 1 {
            assert(text_less(b[j], b[b.len() - 1]));
        }
        if i < a.len() - 1 {
            assert(text_less(a[i], a[a.len() - 1]));
        }
        assert(top == b.last());
        let a0 = a.drop_last();
        let b0 = b.drop_last();
        assert forall|n: Seq<char>| a0.contains(n) <==> b0.contains(n) by {
            if a0.contains(n) {
                let k = choose|k: int| 0 <= k < a0.len() && a0[k] == n;
                assert(a[k] == n);
                assert(text_less(a[k], a[a.len() - 1]));
                assert(a.contains(n));
                let m = choose|m: int| 0 <= m < b.len() && b[m] == n;
                lemma_text_less_irreflexive(n);
                assert(m < b.len() - 1);
                assert(b0[m] == n);
            }
            if b0.contains(n) {
                let k = choose|k: int| 0 <= k < b0.len() && b0[k] == n;
                assert(b[k] == n);
                assert(text_less(b[k], b[b.len() - 1]));
                assert(b.contains(n));
                let m = choose|m: int| 0 <= m < a.len() && a[m] == n;
                lemma_text_less_irreflexive(n);
                assert(m < a.len() - 1);
                assert(a0[m] == n);
            }
        }
        assert(names_rising(a0)) by {
            assert forall|x: int, y: int| 0 <= x < y < a0.len() implies text_less(a0[x], a0[y]) by {
                assert(text_less(a[x], a[y]));
            }
        }
        assert(names_rising(b0)) by {
            assert forall|x: int, y: int| 0 <= x < y < b0.len() implies text_less(b0[x], b0[y]) by {
                assert(text_less(b[x], b[y]));
            }
        }
        lemma_rising_names_unique(a0, b0);
        assert(a =~= a0.push(top));
        assert(b =~= b0.push(top));
    }
}

/// Texts that begin with parts of the same length stand to each other as
/// those parts do, and where the parts are equal, as the rests do.
pub proof fn lemma_text_less_concat(x1: Seq<char>, y1: Seq<char>, x2: Seq<char>, y2: Seq<char>)
    requires
        x1.len() == x2.len(),
    ensures
        text_less(x1 + y1, x2 + y2) == if x1 == x2 {
            text_less(y1, y2)
        } else {
            text_less(x1, x2)
        },
    decreases x1.len(),
{
    if x1.len() == 0 {
        assert(x1 =~= x2);
        assert(x1 + y1 =~= y1);
        assert(x2 + y2 =~= y2);
    } else {
        let a = x1 + y1;
        let b = x2 + y2;
        assert(a[0] == x1[0]);
        assert(b[0] == x2[0]);
        assert(a.skip(1) =~= x1.skip(1) + y1);
        assert(b.skip(1) =~= x2.skip(1) + y2);
        lemma_text_less_concat(x1.skip(1), y1, x2.skip(1), y2);
        if x1[0] == x2[0] {
            if x1.skip(1) == x2.skip(1) {
                assert(x1 =~= seq![x1[0]] + x1.skip(1));
                assert(x2 =~= seq![x2[0]] + x2.skip(1));
            } else {
                if x1 == x2 {
                    assert(x1.skip(1) == x2.skip(1));
                }
            }
        }
    }
}

} // verus!

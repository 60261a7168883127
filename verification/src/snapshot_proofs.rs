//! What holds of snapshots over many writes: the names rise with the
//! time, and of all snapshots taken the newest stay.

use vstd::prelude::*;
use crate::names::digit_char;
use crate::order::{
    lemma_rising_names_unique, lemma_text_less_concat, lemma_text_less_irreflexive, names_rising,
    text_less,
};
use crate::seqs::starts_with;
use crate::snapshots::{
    four_digits, is_calendar_time, is_pruning, timestamp_text, two_digits, SnapshotTime,
};

verus! {

/// Whether the time `a` is earlier than the time `b`.
pub open spec fn time_before(a: SnapshotTime, b: SnapshotTime) -> bool {
    if a.year != b.year {
        a.year < b.year
    } else if a.month != b.month {
        a.month < b.month
    } else if a.day != b.day {
        a.day < b.day
    } else if a.hour != b.hour {
        a.hour < b.hour
    } else if a.minute != b.minute {
        a.minute < b.minute
    } else {
        a.second < b.second
    }
}

/// A smaller number below 100 comes first in two digits.
proof fn lemma_two_digits_order(m: nat, n: nat)
    requires
        m < 100,
        n < 100,
    ensures
        m < n ==> text_less(two_digits(m), two_digits(n)),
        two_digits(m) == two_digits(n) ==> m == n,
        two_digits(m).len() == 2,
{
    let a = two_digits(m);
    let b = two_digits(n);
    assert(a[0] == digit_char(m / 10) && a[1] == digit_char(m % 10));
    assert(b[0] == digit_char(n / 10) && b[1] == digit_char(n % 10));
    assert(a.skip(1)[0] == a[1]);
    assert(b.skip(1)[0] == b[1]);
    assert(a.skip(1).skip(1).len() == 0);
    if m < n {
        if m / 10 == n / 10 {
            assert(m % 10 < n % 10);
            assert(text_less(a.skip(1), b.skip(1)));
        }
    }
}

/// A smaller number below 10000 comes first in four digits.
proof fn lemma_four_digits_order(m: nat, n: nat)
    requires
        m < 10000,
        n < 10000,
    ensures
        m < n ==> text_less(four_digits(m), four_digits(n)),
        four_digits(m) == four_digits(n) ==> m == n,
        four_digits(m).len() == 4,
{
    let a_high = two_digits(m / 100);
    let a_low = two_digits(m % 100);
    let b_high = two_digits(n / 100);
    let b_low = two_digits(n % 100);
    lemma_two_digits_order(m / 100, n / 100);
    lemma_two_digits_order(m % 100, n % 100);
    lemma_text_less_concat(a_high, a_low, b_high, b_low);
    if four_digits(m) == four_digits(n) {
        assert(a_high =~= four_digits(m).take(2));
        assert(b_high =~= four_digits(n).take(2));
        assert(a_low =~= four_digits(m).skip(2));
        assert(b_low =~= four_digits(n).skip(2));
    }
}

/// Of two times of the calendar in years from 0 on, the earlier one is
/// written as the text that comes first; and both texts have 19
/// characters.
pub proof fn lemma_timestamps_rise_with_time(a: SnapshotTime, b: SnapshotTime)
    requires
        is_calendar_time(a),
        is_calendar_time(b),
        a.year >= 0,
        b.year >= 0,
        time_before(a, b),
    ensures
        text_less(timestamp_text(a), timestamp_text(b)),
        timestamp_text(a).len() == 19,
        timestamp_text(b).len() == 19,
{
    let dash = seq!['-'];
    let ya = four_digits(a.year as nat);
    let yb = four_digits(b.year as nat);
    let ma = two_digits(a.month as nat);
    let mb = two_digits(b.month as nat);
    let da = two_digits(a.day as nat);
    let db = two_digits(b.day as nat);
    let ha = two_digits(a.hour as nat);
    let hb = two_digits(b.hour as nat);
    let ia = two_digits(a.minute as nat);
    let ib = two_digits(b.minute as nat);
    let sa = two_digits(a.second as nat);
    let sb = two_digits(b.second as nat);
    lemma_four_digits_order(a.year as nat, b.year as nat);
    lemma_two_digits_order(a.month as nat, b.month as nat);
    lemma_two_digits_order(a.day as nat, b.day as nat);
    lemma_two_digits_order(a.hour as nat, b.hour as nat);
    lemma_two_digits_order(a.minute as nat, b.minute as nat);
    lemma_two_digits_order(a.second as nat, b.second as nat);
    let ra5 = sa;
    let rb5 = sb;
    let ra4 = ia + (dash + ra5);
    let rb4 = ib + (dash + rb5);
    let ra3 = ha + (dash + ra4);
    let rb3 = hb + (dash + rb4);
    let ra2 = da + (dash + ra3);
    let rb2 = db + (dash + rb3);
    let ra1 = ma + (dash + ra2);
    let rb1 = mb + (dash + rb2);
    let ra0 = ya + (dash + ra1);
    let rb0 = yb + (dash + rb1);
    assert(timestamp_text(a) =~= ra0);
    assert(timestamp_text(b) =~= rb0);
    lemma_text_less_concat(dash, ra5, dash, rb5);
    lemma_text_less_concat(ia, dash + ra5, ib, dash + rb5);
    lemma_text_less_concat(dash, ra4, dash, rb4);
    lemma_text_less_concat(ha, dash + ra4, hb, dash + rb4);
    lemma_text_less_concat(dash, ra3, dash, rb3);
    lemma_text_less_concat(da, dash + ra3, db, dash + rb3);
    lemma_text_less_concat(dash, ra2, dash, rb2);
    lemma_text_less_concat(ma, dash + ra2, mb, dash + rb2);
    lemma_text_less_concat(dash, ra1, dash, rb1);
    lemma_text_less_concat(ya, dash + ra1, yb, dash + rb1);
}

/// Names that differ in a part of the same length behind the same start
/// stand to each other as those parts do, whatever follows. So a snapshot
/// of an earlier second has the smaller name, numbered or not.
pub proof fn lemma_names_rise_with_timestamps(
    prefix: Seq<char>,
    stamp_a: Seq<char>,
    rest_a: Seq<char>,
    stamp_b: Seq<char>,
    rest_b: Seq<char>,
)
    requires
        stamp_a.len() == stamp_b.len(),
        text_less(stamp_a, stamp_b),
    ensures
        text_less(prefix + stamp_a + rest_a, prefix + stamp_b + rest_b),
{
    lemma_text_less_irreflexive(stamp_a);
    lemma_text_less_concat(stamp_a, rest_a, stamp_b, rest_b);
    lemma_text_less_concat(prefix, stamp_a + rest_a, prefix, stamp_b + rest_b);
    assert(prefix + stamp_a + rest_a =~= prefix + (stamp_a + rest_a));
    assert(prefix + stamp_b + rest_b =~= prefix + (stamp_b + rest_b));
}

/// The last `count` of the first `upto` names, or all of them where they
/// are fewer.
pub open spec fn newest(names: Seq<Seq<char>>, upto: int, count: nat) -> Seq<Seq<char>> {
    if upto <= count {
        names.take(upto)
    } else {
        names.subrange(upto - count, upto)
    }
}

/// After any number of writes the snapshots that remain are the newest
/// ones, up to the number that is kept. `names[i]` is the name of the
/// snapshot of the write `i`; the names rise, as those of later seconds
/// do. `kept[i]` are the snapshots that are there before the write `i`,
/// none before the first; each write adds its snapshot and prunes. Then
/// before the write `i`, and at the end for `i` the number of writes, the
/// snapshots that are there are the last `max_snapshots` of the first `i`
/// names: with more writes than that, exactly `max_snapshots` remain, the
/// most recent ones.
pub proof fn lemma_newest_snapshots_remain(
    names: Seq<Seq<char>>,
    prefix: Seq<char>,
    max_snapshots: nat,
    kept: Seq<Seq<Seq<char>>>,
    removed: Seq<Seq<Seq<char>>>,
    upto: int,
)
    requires
        max_snapshots > 0,
        names_rising(names),
        forall|i: int| 0 <= i < names.len() ==> starts_with(#[trigger] names[i], prefix),
        kept.len() == names.len() + 1,
        removed.len() == names.len(),
        kept[0].len() == 0,
        forall|i: int|
            0 <= i < names.len() ==> is_pruning(
                kept[i].push(names[i]),
                prefix,
                max_snapshots,
                #[trigger] removed[i],
                kept[i + 1],
            ),
        0 <= upto <= names.len(),
    ensures
        kept[upto] == newest(names, upto, max_snapshots),
    decreases upto,
{
    if upto == 0 {
        assert(kept[0] =~= names.take(0));
    } else {
        let i = upto - 1;
        lemma_newest_snapshots_remain(names, prefix, max_snapshots, kept, removed, i);
        let before = newest(names, i, max_snapshots);
        let given = before.push(names[i]);
        let all = removed[i] + kept[upto];
        assert(is_pruning(given, prefix, max_snapshots, removed[i], kept[i + 1]));
        let start = if i <= max_snapshots { 0 } else { i - max_snapshots };
        assert(given =~= names.subrange(start, upto));
        assert(names_rising(given)) by {
            assert forall|x: int, y: int| 0 <= x < y < given.len() implies text_less(
                given[x],
                given[y],
            ) by {
                assert(text_less(names[start + x], names[start + y]));
            }
        }
        assert forall|n: Seq<char>| all.contains(n) <==> given.contains(n) by {
            if given.contains(n) {
                let g = choose|g: int| 0 <= g < given.len() && given[g] == n;
                assert(n == names[start + g]);
            }
        }
        lemma_rising_names_unique(all, given);
        let cut = removed[i].len() as int;
        assert(kept[upto] =~= all.skip(cut));
        assert(kept[upto] =~= newest(names, upto, max_snapshots));
    }
}

} // verus!

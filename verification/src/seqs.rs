//! Small facts and functions on sequences: the first place of a value, and
//! prefixes.

use vstd::prelude::*;

verus! {

/// The index of the first item of `s` equal to `x`, or the length of `s`
/// where no item is.
pub open spec fn first_index<T>(s: Seq<T>, x: T) -> nat
    decreases s.len(),
{
    if s.len() == 0 || s[0] == x {
        0
    } else {
        1 + first_index(s.skip(1), x)
    }
}

/// Whether `x` is an item of `s`.
pub open spec fn occurs<T>(s: Seq<T>, x: T) -> bool {
    first_index(s, x) < s.len()
}

/// Whether `s` begins with `prefix`.
pub open spec fn starts_with<T>(s: Seq<T>, prefix: Seq<T>) -> bool {
    prefix.len() <= s.len() && s.take(prefix.len() as int) == prefix
}

/// `first_index(s, x)` is within `s`, `x` does not stand before it, and
/// `x` stands at it where it is an index of `s`.
pub proof fn lemma_first_index<T>(s: Seq<T>, x: T)
    ensures
        first_index(s, x) <= s.len(),
        forall|i: int| 0 <= i < first_index(s, x) ==> s[i] != x,
        first_index(s, x) < s.len() ==> s[first_index(s, x) as int] == x,
    decreases s.len(),
{
    if s.len() == 0 || s[0] == x {
    } else {
        let t = s.skip(1);
        lemma_first_index(t, x);
        assert forall|i: int| 0 <= i < first_index(s, x) implies s[i] != x by {
            if i > 0 {
                assert(s[i] == t[i - 1]);
            }
        }
        if first_index(s, x) < s.len() {
            assert(s[first_index(s, x) as int] == t[first_index(t, x) as int]);
        }
    }
}

/// An index with no `x` before it, and `x` at it unless it is the length
/// of `s`, is `first_index(s, x)`.
pub proof fn lemma_first_index_is<T>(s: Seq<T>, x: T, n: int)
    requires
        0 <= n <= s.len(),
        forall|i: int| 0 <= i < n ==> s[i] != x,
        n < s.len() ==> s[n] == x,
    ensures
        first_index(s, x) == n,
{
    lemma_first_index(s, x);
    let m = first_index(s, x) as int;
    if m < n {
        assert(s[m] == x);
    } else if n < m {
        assert(s[n] == x);
    }
}

} // verus!

//! Lists of file names, and names that are numbered to keep them apart: a
//! base name, then the same name with `.1`, `.2` and so on behind it.

use vstd::prelude::*;
use crate::lines::{copy_chars, line_views};
use crate::seqs::starts_with;
use crate::text::{chars_of, same_chars, string_of};

verus! {

/// The views of a vector of names.
pub open spec fn name_views(names: Seq<String>) -> Seq<Seq<char>> {
    Seq::new(names.len(), |i: int| names[i]@)
}

/// The texts of a list of names.
pub open spec fn str_views(names: Seq<&'static str>) -> Seq<Seq<char>> {
    Seq::new(names.len(), |i: int| names[i]@)
}

/// Whether `names` holds `name`.
pub fn holds_name(names: &Vec<Vec<char>>, name: &Vec<char>) -> (r: bool)
    ensures
        r == line_views(names@).contains(name@),
{
    let mut i: usize = 0;
    while i < names.len()
        invariant
            i <= names.len(),
            forall|j: int| 0 <= j < i ==> line_views(names@)[j] != name@,
        decreases names.len() - i,
    {
        if same_chars(&names[i], name) {
            assert(line_views(names@)[i as int] == name@);
            return true;
        }
        i += 1;
    }
    false
}

/// The characters of each name.
pub fn names_as_chars(names: &Vec<String>) -> (out: Vec<Vec<char>>)
    ensures
        line_views(out@) == name_views(names@),
{
    let mut out: Vec<Vec<char>> = Vec::new();
    let mut i: usize = 0;
    while i < names.len()
        invariant
            i <= names.len(),
            line_views(out@) == name_views(names@).take(i as int),
        decreases names.len() - i,
    {
        let ghost before = line_views(out@);
        let name = chars_of(names[i].as_str());
        out.push(name);
        assert(line_views(out@) =~= before.push(names@[i as int]@));
        assert(name_views(names@).take(i + 1) =~= name_views(names@).take(i as int).push(
            names@[i as int]@,
        ));
        i += 1;
    }
    assert(name_views(names@).take(names.len() as int) == name_views(names@));
    out
}

/// The names from `from` up to `to`, as strings.
pub(crate) fn chars_as_names(names: &Vec<Vec<char>>, from: usize, to: usize) -> (out: Vec<String>)
    requires
        from <= to <= names.len(),
    ensures
        name_views(out@) == line_views(names@).subrange(from as int, to as int),
{
    let mut out: Vec<String> = Vec::new();
    let mut i: usize = from;
    while i < to
        invariant
            from <= i <= to <= names.len(),
            name_views(out@) == line_views(names@).subrange(from as int, i as int),
        decreases to - i,
    {
        let ghost before = name_views(out@);
        let name = string_of(&names[i]);
        out.push(name);
        assert(name_views(out@) =~= before.push(names@[i as int]@));
        assert(line_views(names@).subrange(from as int, i + 1) =~= line_views(names@).subrange(
            from as int,
            i as int,
        ).push(names@[i as int]@));
        i += 1;
    }
    out
}

/// Those of the names that begin with `prefix`, in their order.
pub open spec fn with_prefix(names: Seq<Seq<char>>, prefix: Seq<char>) -> Seq<Seq<char>>
    decreases names.len(),
{
    if names.len() == 0 {
        Seq::empty()
    } else {
        let before = with_prefix(names.drop_last(), prefix);
        if starts_with(names.last(), prefix) {
            before.push(names.last())
        } else {
            before
        }
    }
}

/// A name is among those that begin with `prefix` exactly where it is
/// among the names and begins with `prefix`.
pub proof fn lemma_with_prefix_holds(names: Seq<Seq<char>>, prefix: Seq<char>, name: Seq<char>)
    ensures
        with_prefix(names, prefix).contains(name) <==> names.contains(name) && starts_with(
            name,
            prefix,
        ),
    decreases names.len(),
{
    if names.len() > 0 {
        let shorter = names.drop_last();
        let before = with_prefix(shorter, prefix);
        let after = with_prefix(names, prefix);
        lemma_with_prefix_holds(shorter, prefix, name);
        if after.contains(name) {
            let k = choose|k: int| 0 <= k < after.len() && after[k] == name;
            if k < before.len() {
                assert(before[k] == name);
                let g = choose|g: int| 0 <= g < shorter.len() && shorter[g] == name;
                assert(names[g] == name);
            } else {
                assert(names[names.len() - 1] == name);
            }
        }
        if names.contains(name) && starts_with(name, prefix) {
            let g = choose|g: int| 0 <= g < names.len() && names[g] == name;
            if g < shorter.len() {
                assert(shorter[g] == name);
                let k = choose|k: int| 0 <= k < before.len() && before[k] == name;
                assert(after[k] == name);
            } else {
                assert(after[after.len() - 1] == name);
            }
        }
    }
}

/// The highest number that is tried before giving up.
pub const MAX_NAME_COUNTER: u32 = 10_000;

/// The character of one decimal digit.
pub open spec fn digit_char(d: nat) -> char {
    if d == 0 {
        '0'
    } else if d == 1 {
        '1'
    } else if d == 2 {
        '2'
    } else if d == 3 {
        '3'
    } else if d == 4 {
        '4'
    } else if d == 5 {
        '5'
    } else if d == 6 {
        '6'
    } else if d == 7 {
        '7'
    } else if d == 8 {
        '8'
    } else {
        '9'
    }
}

/// A number in decimal digits, without leading zeros.
pub open spec fn decimal_text(n: nat) -> Seq<char>
    decreases n,
{
    if n < 10 {
        seq![digit_char(n)]
    } else {
        decimal_text(n / 10).push(digit_char(n % 10))
    }
}

/// The name with the number `counter`: the base itself for 0, else the
/// base, a dot and the number.
pub open spec fn numbered_name(base: Seq<char>, counter: nat) -> Seq<char> {
    if counter == 0 {
        base
    } else {
        base + seq!['.'] + decimal_text(counter)
    }
}

/// Whether every name with a number below `bound` is taken.
pub open spec fn all_taken_below(taken: Seq<Seq<char>>, base: Seq<char>, bound: nat) -> bool {
    forall|c: nat| c < bound ==> taken.contains(#[trigger] numbered_name(base, c))
}

/// The character of one decimal digit.
pub(crate) fn digit(d: u32) -> (c: char)
    requires
        d < 10,
    ensures
        c == digit_char(d as nat),
{
    if d == 0 {
        '0'
    } else if d == 1 {
        '1'
    } else if d == 2 {
        '2'
    } else if d == 3 {
        '3'
    } else if d == 4 {
        '4'
    } else if d == 5 {
        '5'
    } else if d == 6 {
        '6'
    } else if d == 7 {
        '7'
    } else if d == 8 {
        '8'
    } else {
        '9'
    }
}

/// A number in decimal digits, without leading zeros.
pub fn decimal_chars(n: u32) -> (text: Vec<char>)
    ensures
        text@ == decimal_text(n as nat),
    decreases n,
{
    if n < 10 {
        let text: Vec<char> = vec![digit(n)];
        assert(text@ =~= seq![digit_char(n as nat)]);
        text
    } else {
        let mut text = decimal_chars(n / 10);
        text.push(digit(n % 10));
        text
    }
}

/// The name with the number `counter`.
pub fn numbered(base: &Vec<char>, counter: u32) -> (name: Vec<char>)
    ensures
        name@ == numbered_name(base@, counter as nat),
{
    let mut name = copy_chars(base);
    assert(name@ == base@);
    if counter > 0 {
        name.push('.');
        let mut digits = decimal_chars(counter);
        name.append(&mut digits);
        assert(name@ =~= base@ + seq!['.'] + decimal_text(counter as nat));
    }
    name
}

/// The first of the numbered names that is not taken, trying the numbers
/// from 0 to `MAX_NAME_COUNTER`; none where all of them are taken.
pub fn first_unused_name(taken: &Vec<Vec<char>>, base: &Vec<char>) -> (r: Option<(Vec<char>, u32)>)
    ensures
        match r {
            Some((name, counter)) => {
                &&& counter <= MAX_NAME_COUNTER
                &&& name@ == numbered_name(base@, counter as nat)
                &&& !line_views(taken@).contains(name@)
                &&& all_taken_below(line_views(taken@), base@, counter as nat)
            },
            None => all_taken_below(line_views(taken@), base@, (MAX_NAME_COUNTER + 1) as nat),
        },
{
    let mut counter: u32 = 0;
    while counter <= MAX_NAME_COUNTER
        invariant
            counter <= MAX_NAME_COUNTER + 1,
            all_taken_below(line_views(taken@), base@, counter as nat),
        decreases MAX_NAME_COUNTER + 1 - counter,
    {
        let name = numbered(base, counter);
        if !holds_name(taken, &name) {
            return Some((name, counter));
        }
        counter += 1;
    }
    None
}

} // verus!

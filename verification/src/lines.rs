//! A text as a sequence of lines: splitting at line endings and joining
//! with single newlines.

use vstd::prelude::*;

verus! {

/// The index of the first newline of `s`, or the length of `s` where it
/// has none.
pub open spec fn newline_index(s: Seq<char>) -> nat
    decreases s.len(),
{
    if s.len() == 0 || s[0] == '\n' {
        0
    } else {
        1 + newline_index(s.skip(1))
    }
}

/// `line` without one carriage return at its end.
pub open spec fn strip_cr(line: Seq<char>) -> Seq<char> {
    if line.len() > 0 && line.last() == '\r' {
        line.drop_last()
    } else {
        line
    }
}

/// The lines of a text. A line ends at a newline; the newline and one
/// carriage return right before it are not part of the line. Characters
/// after the last newline form a last line, taken as it stands. The empty
/// text has no line.
pub open spec fn lines_of(s: Seq<char>) -> Seq<Seq<char>>
    decreases s.len(),
{
    if s.len() == 0 {
        Seq::empty()
    } else {
        let n = newline_index(s) as int;
        if n >= s.len() {
            seq![s]
        } else {
            seq![strip_cr(s.take(n))] + lines_of(s.skip(n + 1))
        }
    }
}

/// The lines with one newline between each two neighbours.
pub open spec fn join_lines(lines: Seq<Seq<char>>) -> Seq<char>
    decreases lines.len(),
{
    if lines.len() == 0 {
        Seq::empty()
    } else if lines.len() == 1 {
        lines[0]
    } else {
        lines[0] + seq!['\n'] + join_lines(lines.skip(1))
    }
}

/// Whether `s` ends in a newline.
pub open spec fn ends_with_newline(s: Seq<char>) -> bool {
    s.len() > 0 && s.last() == '\n'
}

/// The joined lines, ending in a newline: one is added unless the joined
/// text already ends in one.
pub open spec fn normalized_join(lines: Seq<Seq<char>>) -> Seq<char> {
    let joined = join_lines(lines);
    if ends_with_newline(joined) {
        joined
    } else {
        joined.push('\n')
    }
}

/// Whether `s` holds no newline.
pub open spec fn no_newline(s: Seq<char>) -> bool {
    forall|i: int| 0 <= i < s.len() ==> s[i] != '\n'
}

/// The views of a vector of lines.
pub open spec fn line_views(lines: Seq<Vec<char>>) -> Seq<Seq<char>> {
    Seq::new(lines.len(), |i: int| lines[i]@)
}

/// `newline_index(s)` is within `s`, no newline stands before it, and a
/// newline stands at it where it is an index of `s`.
pub proof fn lemma_newline_index(s: Seq<char>)
    ensures
        newline_index(s) <= s.len(),
        forall|i: int| 0 <= i < newline_index(s) ==> s[i] != '\n',
        newline_index(s) < s.len() ==> s[newline_index(s) as int] == '\n',
    decreases s.len(),
{
    if s.len() == 0 || s[0] == '\n' {
    } else {
        let t = s.skip(1);
        lemma_newline_index(t);
        assert forall|i: int| 0 <= i < newline_index(s) implies s[i] != '\n' by {
            if i > 0 {
                assert(s[i] == t[i - 1]);
            }
        }
        if newline_index(s) < s.len() {
            assert(s[newline_index(s) as int] == t[newline_index(t) as int]);
        }
    }
}

/// An index with no newline before it, and a newline at it unless it is
/// the length of `s`, is `newline_index(s)`.
pub proof fn lemma_newline_index_is(s: Seq<char>, n: int)
    requires
        0 <= n <= s.len(),
        forall|i: int| 0 <= i < n ==> s[i] != '\n',
        n < s.len() ==> s[n] == '\n',
    ensures
        newline_index(s) == n,
{
    lemma_newline_index(s);
    let m = newline_index(s) as int;
    if m < n {
        assert(s[m] == '\n');
    } else if n < m {
        assert(s[n] == '\n');
    }
}

/// The lines of a first line, a newline, and a rest.
pub proof fn lemma_lines_of_cons(first: Seq<char>, rest: Seq<char>)
    requires
        no_newline(first),
    ensures
        lines_of(first + seq!['\n'] + rest) == seq![strip_cr(first)] + lines_of(rest),
{
    let s = first + seq!['\n'] + rest;
    let n = first.len() as int;
    assert forall|i: int| 0 <= i < n implies s[i] != '\n' by {
        assert(s[i] == first[i]);
    }
    assert(s[n] == '\n');
    lemma_newline_index_is(s, n);
    assert(s.take(n) =~= first);
    assert(s.skip(n + 1) =~= rest);
}

/// No line of a text holds a newline.
pub proof fn lemma_lines_hold_no_newline(s: Seq<char>)
    ensures
        forall|k: int| 0 <= k < lines_of(s).len() ==> no_newline(#[trigger] lines_of(s)[k]),
    decreases s.len(),
{
    if s.len() == 0 {
    } else {
        lemma_newline_index(s);
        let n = newline_index(s) as int;
        if n >= s.len() {
            assert(no_newline(s));
        } else {
            let head = strip_cr(s.take(n));
            assert(no_newline(head)) by {
                assert forall|i: int| 0 <= i < head.len() implies head[i] != '\n' by {
                    assert(head[i] == s[i]);
                }
            }
            lemma_lines_hold_no_newline(s.skip(n + 1));
            let tail = lines_of(s.skip(n + 1));
            assert forall|k: int| 0 <= k < lines_of(s).len() implies no_newline(
                #[trigger] lines_of(s)[k],
            ) by {
                if k > 0 {
                    assert(lines_of(s)[k] == tail[k - 1]);
                }
            }
        }
    }
}

/// Joining with one more line at the end.
pub proof fn lemma_join_push(lines: Seq<Seq<char>>, last: Seq<char>)
    requires
        lines.len() > 0,
    ensures
        join_lines(lines.push(last)) == join_lines(lines) + seq!['\n'] + last,
    decreases lines.len(),
{
    let all = lines.push(last);
    assert(all.skip(1) =~= lines.skip(1).push(last));
    if lines.len() == 1 {
        assert(all.skip(1) =~= seq![last]);
        assert(join_lines(all.skip(1)) == last);
    } else {
        lemma_join_push(lines.skip(1), last);
        assert(join_lines(all) =~= join_lines(lines) + seq!['\n'] + last);
    }
}

/// A copy of the characters of `v` from `from` up to `to`.
pub(crate) fn copy_range(v: &Vec<char>, from: usize, to: usize) -> (r: Vec<char>)
    requires
        from <= to <= v.len(),
    ensures
        r@ == v@.subrange(from as int, to as int),
{
    let mut r: Vec<char> = Vec::new();
    let mut i: usize = from;
    while i < to
        invariant
            from <= i <= to <= v.len(),
            r@ == v@.subrange(from as int, i as int),
        decreases to - i,
    {
        r.push(v[i]);
        assert(v@.subrange(from as int, i + 1) == v@.subrange(from as int, i as int).push(
            v@[i as int],
        ));
        i += 1;
    }
    r
}

/// A copy of the characters of `v`.
pub fn copy_chars(v: &Vec<char>) -> (r: Vec<char>)
    ensures
        r@ == v@,
{
    let r = copy_range(v, 0, v.len());
    assert(v@.subrange(0, v.len() as int) == v@);
    r
}

/// Splits a text into its lines.
pub fn split_lines(text: &Vec<char>) -> (lines: Vec<Vec<char>>)
    ensures
        line_views(lines@) == lines_of(text@),
{
    let mut lines: Vec<Vec<char>> = Vec::new();
    let mut start: usize = 0;
    let mut i: usize = 0;
    assert(text@.skip(0) == text@);
    assert(line_views(lines@) + lines_of(text@.skip(0)) == lines_of(text@));
    while i < text.len()
        invariant
            start <= i <= text.len(),
            forall|j: int| start <= j < i ==> text@[j] != '\n',
            line_views(lines@) + lines_of(text@.skip(start as int)) == lines_of(text@),
        decreases text.len() - i,
    {
        if text[i] == '\n' {
            let end: usize = if i > start && text[i - 1] == '\r' {
                i - 1
            } else {
                i
            };
            let line = copy_range(text, start, end);
            proof {
                let rest = text@.skip(start as int);
                let n = i - start;
                assert forall|j: int| 0 <= j < n implies rest[j] != '\n' by {
                    assert(rest[j] == text@[start + j]);
                }
                assert(rest[n] == '\n');
                lemma_newline_index_is(rest, n);
                assert(rest.take(n) == text@.subrange(start as int, i as int));
                assert(strip_cr(rest.take(n)) == line@);
                assert(rest.skip(n + 1) == text@.skip(i + 1));
                assert(lines_of(rest) == seq![line@] + lines_of(text@.skip(i + 1)));
                assert(line_views(lines@.push(line)) == line_views(lines@) + seq![line@]);
            }
            lines.push(line);
            start = i + 1;
        }
        i += 1;
    }
    proof {
        let rest = text@.skip(start as int);
        assert forall|j: int| 0 <= j < rest.len() implies rest[j] != '\n' by {
            assert(rest[j] == text@[start + j]);
        }
        lemma_newline_index_is(rest, rest.len() as int);
    }
    if start < text.len() {
        let line = copy_range(text, start, text.len());
        proof {
            assert(line@ == text@.skip(start as int));
            assert(line_views(lines@.push(line)) == line_views(lines@) + seq![line@]);
        }
        lines.push(line);
    } else {
        assert(line_views(lines@) + Seq::<Seq<char>>::empty() == line_views(lines@));
    }
    lines
}

/// Joins lines with single newlines and lets the text end in a newline.
pub fn join_normalized(lines: &Vec<Vec<char>>) -> (text: Vec<char>)
    ensures
        text@ == normalized_join(line_views(lines@)),
{
    let ghost views = line_views(lines@);
    let mut text: Vec<char> = Vec::new();
    let mut k: usize = 0;
    while k < lines.len()
        invariant
            k <= lines.len(),
            views == line_views(lines@),
            text@ == join_lines(views.take(k as int)),
        decreases lines.len() - k,
    {
        if k > 0 {
            text.push('\n');
        }
        let line = &lines[k];
        let ghost before = text@;
        let mut j: usize = 0;
        while j < line.len()
            invariant
                j <= line.len(),
                text@ == before + line@.take(j as int),
            decreases line.len() - j,
        {
            text.push(line[j]);
            assert(line@.take(j + 1) == line@.take(j as int).push(line@[j as int]));
            j += 1;
        }
        proof {
            assert(line@.take(line.len() as int) == line@);
            assert(views.take(k + 1) == views.take(k as int).push(line@));
            if k > 0 {
                lemma_join_push(views.take(k as int), line@);
            } else {
                assert(views.take(1) =~= seq![line@]);
                assert(before + line@ == line@);
            }
        }
        k += 1;
    }
    assert(views.take(lines.len() as int) == views);
    let n = text.len();
    if n == 0 || text[n - 1] != '\n' {
        text.push('\n');
    }
    text
}

} // verus!

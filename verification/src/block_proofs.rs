//! What holds of the managed-block functions taken together: what a search
//! finds, that an upsert done twice is an upsert done once, and what
//! uninstalling and disabling leave behind.

use vstd::prelude::*;
use crate::lines::{
    ends_with_newline, join_lines, lemma_join_push, lemma_lines_hold_no_newline,
    lemma_lines_of_cons, lines_of, no_newline, normalized_join, strip_cr,
};
use crate::managed_block::{
    begin_marker, block_range, block_search, default_shebang, disable_lines, disable_text,
    end_marker, has_flag_line, has_shebang, is_flag_line, uninstall_text, upsert_lines, upsert_spec,
    upsert_text, upserted_text, with_shebang, BlockError, DISABLED_FLAG_LINE, ENABLED_FLAG_PREFIX,
};
use crate::seqs::{first_index, lemma_first_index, lemma_first_index_is, occurs};
use crate::text::{is_space, lemma_leading_spaces_is, trim_start};

verus! {

/// Whether no line holds a newline or ends in a carriage return: such
/// lines are read back as they were written.
pub open spec fn plain_lines(lines: Seq<Seq<char>>) -> bool {
    forall|i: int|
        0 <= i < lines.len() ==> no_newline(#[trigger] lines[i]) && strip_cr(lines[i]) == lines[i]
}

/// Whether no line ends in a carriage return. A line of a text does where
/// two carriage returns stand before its newline, or where the text ends
/// in a carriage return without newline.
pub open spec fn no_stray_cr(lines: Seq<Seq<char>>) -> bool {
    forall|i: int| 0 <= i < lines.len() ==> strip_cr(#[trigger] lines[i]) == lines[i]
}

/// Whether the last two lines are both empty.
pub open spec fn ends_in_two_empty_lines(lines: Seq<Seq<char>>) -> bool {
    lines.len() >= 2 && lines[lines.len() - 1].len() == 0 && lines[lines.len() - 2].len() == 0
}

/// Whether the lines are a managed block: the begin marker first, the end
/// marker last, and no end marker before the last line.
pub open spec fn is_managed_block(block: Seq<Seq<char>>) -> bool {
    &&& block.len() >= 2
    &&& block[0] == begin_marker()
    &&& block[block.len() - 1] == end_marker()
    &&& forall|i: int| 0 <= i < block.len() - 1 ==> block[i] != end_marker()
}

/// Whether no line is a marker.
pub open spec fn marker_free(lines: Seq<Seq<char>>) -> bool {
    forall|i: int|
        0 <= i < lines.len() ==> #[trigger] lines[i] != begin_marker() && lines[i] != end_marker()
}

/// The lines that are read from the text that `normalized_join` writes:
/// one line for no lines, and one empty line less at the end of two or
/// more lines.
pub open spec fn lines_read_back(lines: Seq<Seq<char>>) -> Seq<Seq<char>> {
    if lines.len() == 0 {
        seq![Seq::<char>::empty()]
    } else if lines.len() >= 2 && lines.last().len() == 0 {
        lines.drop_last()
    } else {
        lines
    }
}

/// The lines behind the default interpreter line, unless the first of
/// them is an interpreter line.
pub open spec fn lines_with_shebang(lines: Seq<Seq<char>>) -> Seq<Seq<char>> {
    if lines.len() > 0 && has_shebang(lines[0]) {
        lines
    } else {
        seq![default_shebang()] + lines
    }
}

/// The markers differ from each other, from the empty line and from any
/// interpreter line; the default interpreter line is one, and is plain.
pub proof fn lemma_marker_facts()
    ensures
        begin_marker() != end_marker(),
        begin_marker().len() > 0,
        end_marker().len() > 0,
        !has_shebang(begin_marker()),
        !has_shebang(end_marker()),
        has_shebang(default_shebang()),
        no_newline(default_shebang()),
        strip_cr(default_shebang()) == default_shebang(),
{
    reveal_strlit("# >>> git-hook-installer managed block >>>");
    reveal_strlit("# <<< git-hook-installer managed block <<<");
    assert(begin_marker()[2] == '>');
    assert(end_marker()[2] == '<');
    assert(begin_marker()[1] == ' ');
    assert(end_marker()[1] == ' ');
}

/// Where the first begin marker stands at `start` and the first end marker
/// at `end`, not before it, the search finds exactly the lines from
/// `start` to `end`.
pub proof fn lemma_search_finds_first_pair(lines: Seq<Seq<char>>, start: int, end: int)
    requires
        0 <= start <= end < lines.len(),
        lines[start] == begin_marker(),
        lines[end] == end_marker(),
        forall|i: int| 0 <= i < start ==> lines[i] != begin_marker(),
        forall|i: int| 0 <= i < end ==> lines[i] != end_marker(),
    ensures
        block_search(lines) == Ok::<Option<(int, int)>, BlockError>(Some((start, end))),
        block_range(lines) == Some((start, end)),
{
    lemma_first_index_is(lines, begin_marker(), start);
    lemma_first_index_is(lines, end_marker(), end);
}

/// Lines that hold a begin marker and no end marker are an error, not a
/// text without a block.
pub proof fn lemma_search_rejects_unterminated_block(lines: Seq<Seq<char>>)
    requires
        occurs(lines, begin_marker()),
        !occurs(lines, end_marker()),
    ensures
        block_search(lines) == Err::<Option<(int, int)>, BlockError>(BlockError::UnterminatedBlock),
{
    lemma_first_index(lines, begin_marker());
    lemma_first_index(lines, end_marker());
}

/// A range that the search finds begins at the first begin marker and ends
/// at the first end marker, which comes later.
pub proof fn lemma_found_range(lines: Seq<Seq<char>>)
    ensures
        match block_range(lines) {
            Some((start, end)) => {
                &&& 0 <= start < end < lines.len()
                &&& lines[start] == begin_marker()
                &&& lines[end] == end_marker()
                &&& forall|i: int| 0 <= i < start ==> lines[i] != begin_marker()
                &&& forall|i: int| 0 <= i < end ==> lines[i] != end_marker()
            },
            None => true,
        },
{
    lemma_marker_facts();
    lemma_first_index(lines, begin_marker());
    lemma_first_index(lines, end_marker());
}

/// Joining behind a first line.
pub proof fn lemma_join_cons(first: Seq<char>, rest: Seq<Seq<char>>)
    requires
        rest.len() > 0,
    ensures
        join_lines(seq![first] + rest) == first + seq!['\n'] + join_lines(rest),
{
    let all = seq![first] + rest;
    assert(all.skip(1) =~= rest);
    assert(all[0] == first);
}

/// Plain lines, joined and closed by a newline, are read back as they are.
pub proof fn lemma_lines_of_joined(lines: Seq<Seq<char>>)
    requires
        lines.len() > 0,
        plain_lines(lines),
    ensures
        lines_of(join_lines(lines).push('\n')) == lines,
    decreases lines.len(),
{
    let first = lines[0];
    assert(no_newline(first) && strip_cr(first) == first);
    if lines.len() == 1 {
        assert(first.push('\n') =~= first + seq!['\n'] + Seq::<char>::empty());
        lemma_lines_of_cons(first, Seq::<char>::empty());
        assert(lines_of(Seq::<char>::empty()) =~= Seq::<Seq<char>>::empty());
        assert(seq![first] + Seq::<Seq<char>>::empty() =~= lines);
    } else {
        let rest = lines.skip(1);
        assert(plain_lines(rest)) by {
            assert forall|i: int| 0 <= i < rest.len() implies no_newline(#[trigger] rest[i])
                && strip_cr(rest[i]) == rest[i] by {
                assert(rest[i] == lines[i + 1]);
            }
        }
        lemma_lines_of_joined(rest);
        let tail = join_lines(rest).push('\n');
        assert(join_lines(lines).push('\n') =~= first + seq!['\n'] + tail);
        lemma_lines_of_cons(first, tail);
        assert(seq![first] + rest =~= lines);
    }
}

/// The joined text ends in a newline exactly where the last of two or more
/// lines is empty.
pub proof fn lemma_join_ends_with_newline(lines: Seq<Seq<char>>)
    requires
        forall|i: int| 0 <= i < lines.len() ==> no_newline(#[trigger] lines[i]),
    ensures
        ends_with_newline(join_lines(lines)) <==> lines.len() >= 2 && lines.last().len() == 0,
        lines.len() >= 2 ==> join_lines(lines) == join_lines(lines.drop_last()) + seq!['\n']
            + lines.last(),
{
    if lines.len() == 1 {
        assert(no_newline(lines[0]));
    } else if lines.len() >= 2 {
        let front = lines.drop_last();
        let last = lines.last();
        assert(front.push(last) =~= lines);
        lemma_join_push(front, last);
        assert(no_newline(last));
        let joined = join_lines(front) + seq!['\n'] + last;
        if last.len() > 0 {
            assert(joined.last() == last.last());
        } else {
            assert(joined.last() == '\n');
        }
    }
}

/// The text that `normalized_join` writes is the lines that are read back
/// from it, joined and closed by a newline.
pub proof fn lemma_normalized_join_form(lines: Seq<Seq<char>>)
    requires
        forall|i: int| 0 <= i < lines.len() ==> no_newline(#[trigger] lines[i]),
    ensures
        normalized_join(lines) == join_lines(lines_read_back(lines)).push('\n'),
{
    lemma_join_ends_with_newline(lines);
    if lines.len() == 0 {
        assert(join_lines(seq![Seq::<char>::empty()]) =~= Seq::<char>::empty());
    } else if lines.len() >= 2 && lines.last().len() == 0 {
        assert(join_lines(lines) =~= join_lines(lines.drop_last()).push('\n'));
    } else {
    }
}

/// Reading back what `normalized_join` wrote from plain lines.
pub proof fn lemma_lines_of_normalized_join(lines: Seq<Seq<char>>)
    requires
        plain_lines(lines),
    ensures
        lines_of(normalized_join(lines)) == lines_read_back(lines),
{
    lemma_normalized_join_form(lines);
    let back = lines_read_back(lines);
    assert(plain_lines(back)) by {
        assert forall|i: int| 0 <= i < back.len() implies no_newline(#[trigger] back[i])
            && strip_cr(back[i]) == back[i] by {
            if lines.len() > 0 {
                assert(back[i] == lines[i]);
            }
        }
    }
    lemma_lines_of_joined(back);
}

/// A joined text begins with an interpreter line exactly where its first
/// line is one.
pub proof fn lemma_shebang_of_joined(lines: Seq<Seq<char>>)
    requires
        lines.len() > 0,
        no_newline(lines[0]),
    ensures
        has_shebang(join_lines(lines).push('\n')) == has_shebang(lines[0]),
{
    let first = lines[0];
    let text = join_lines(lines).push('\n');
    if lines.len() == 1 {
        assert(text =~= first.push('\n'));
    } else {
        assert(text =~= first + seq!['\n'] + join_lines(lines.skip(1)).push('\n'));
    }
    assert(text.len() > first.len());
    assert(text[first.len() as int] == '\n');
    assert(forall|i: int| 0 <= i < first.len() ==> text[i] == first[i]);
}

/// The text that an operation writes from plain lines, with an interpreter
/// line ensured, and the lines read back from it.
pub proof fn lemma_written_text(lines: Seq<Seq<char>>)
    requires
        plain_lines(lines),
    ensures
        with_shebang(normalized_join(lines)) == join_lines(
            lines_with_shebang(lines_read_back(lines)),
        ).push('\n'),
        lines_of(with_shebang(normalized_join(lines))) == lines_with_shebang(
            lines_read_back(lines),
        ),
        plain_lines(lines_with_shebang(lines_read_back(lines))),
        has_shebang(with_shebang(normalized_join(lines))),
{
    lemma_marker_facts();
    lemma_normalized_join_form(lines);
    let back = lines_read_back(lines);
    assert(plain_lines(back)) by {
        assert forall|i: int| 0 <= i < back.len() implies no_newline(#[trigger] back[i])
            && strip_cr(back[i]) == back[i] by {
            if lines.len() > 0 {
                assert(back[i] == lines[i]);
            }
        }
    }
    assert(no_newline(back[0]));
    lemma_shebang_of_joined(back);
    let all = lines_with_shebang(back);
    if has_shebang(back[0]) {
    } else {
        lemma_join_cons(default_shebang(), back);
        assert(default_shebang().push('\n') + join_lines(back).push('\n') =~= join_lines(
            all,
        ).push('\n'));
        assert(plain_lines(all)) by {
            assert forall|i: int| 0 <= i < all.len() implies no_newline(#[trigger] all[i])
                && strip_cr(all[i]) == all[i] by {
                if i > 0 {
                    assert(all[i] == back[i - 1]);
                }
            }
        }
    }
    assert(no_newline(all[0]));
    lemma_shebang_of_joined(all);
    lemma_lines_of_joined(all);
}

/// The lines that an upsert keeps before the new block.
pub open spec fn kept_before(lines: Seq<Seq<char>>) -> Seq<Seq<char>> {
    match block_range(lines) {
        Some((start, end)) => lines.take(start),
        None => if lines.len() > 0 && has_shebang(lines[0]) {
            lines.take(1) + seq![Seq::<char>::empty()]
        } else {
            Seq::empty()
        },
    }
}

/// The lines that an upsert keeps after the new block.
pub open spec fn kept_after(lines: Seq<Seq<char>>) -> Seq<Seq<char>> {
    match block_range(lines) {
        Some((start, end)) => lines.skip(end + 1),
        None => if lines.len() > 0 && has_shebang(lines[0]) {
            seq![Seq::<char>::empty()] + lines.skip(1)
        } else {
            seq![Seq::<char>::empty()] + lines
        },
    }
}

/// An upsert puts the block between the lines it keeps, and no marker
/// stands before the block.
pub proof fn lemma_upsert_shape(lines: Seq<Seq<char>>, block: Seq<Seq<char>>)
    ensures
        upsert_lines(lines, block) == kept_before(lines) + block + kept_after(lines),
        marker_free(kept_before(lines)),
{
    lemma_marker_facts();
    lemma_found_range(lines);
    let before = kept_before(lines);
    match block_range(lines) {
        Some((start, end)) => {
            assert forall|i: int| 0 <= i < before.len() implies #[trigger] before[i]
                != begin_marker() && before[i] != end_marker() by {
                assert(before[i] == lines[i]);
            }
        },
        None => {
            if lines.len() > 0 && has_shebang(lines[0]) {
                assert(upsert_lines(lines, block) =~= before + block + kept_after(lines));
                assert forall|i: int| 0 <= i < before.len() implies #[trigger] before[i]
                    != begin_marker() && before[i] != end_marker() by {
                    if i == 0 {
                        assert(before[0] == lines[0]);
                    } else {
                        assert(before[i].len() == 0);
                    }
                }
            } else {
                assert(upsert_lines(lines, block) =~= before + block + kept_after(lines));
            }
        },
    }
}

/// In lines that hold a managed block behind lines without markers, the
/// search finds that block, and an upsert of the same block changes
/// nothing.
pub proof fn lemma_block_in_place(
    head: Seq<Seq<char>>,
    block: Seq<Seq<char>>,
    tail: Seq<Seq<char>>,
)
    requires
        marker_free(head),
        is_managed_block(block),
    ensures
        block_range(head + block + tail) == Some(
            (head.len() as int, head.len() + block.len() - 1),
        ),
        upsert_lines(head + block + tail, block) == head + block + tail,
{
    lemma_marker_facts();
    let all = head + block + tail;
    let start = head.len() as int;
    let end = head.len() + block.len() - 1;
    assert(all[start] == block[0]);
    assert(all[end] == block[block.len() - 1]);
    assert forall|i: int| 0 <= i < start implies all[i] != begin_marker() by {
        assert(all[i] == head[i]);
    }
    assert forall|i: int| 0 <= i < end implies all[i] != end_marker() by {
        if i < start {
            assert(all[i] == head[i]);
        } else {
            assert(all[i] == block[i - start]);
        }
    }
    lemma_search_finds_first_pair(all, start, end);
    assert(all.take(start) =~= head);
    assert(all.skip(end + 1) =~= tail);
}

/// The lines that an upsert makes of the lines of two texts hold no
/// newline; so they are plain where none of them ends in a carriage
/// return.
proof fn lemma_upsert_lines_are_plain(existing: Seq<char>, block: Seq<char>)
    requires
        no_stray_cr(upsert_lines(lines_of(existing), lines_of(block))),
    ensures
        plain_lines(upsert_lines(lines_of(existing), lines_of(block))),
{
    let old_lines = lines_of(existing);
    let block_lines = lines_of(block);
    let written = upsert_lines(old_lines, block_lines);
    lemma_lines_hold_no_newline(existing);
    lemma_lines_hold_no_newline(block);
    lemma_found_range(old_lines);
    let n = block_lines.len() as int;
    assert forall|i: int| 0 <= i < written.len() implies no_newline(#[trigger] written[i]) by {
        match block_range(old_lines) {
            Some((start, end)) => {
                if i < start {
                    assert(written[i] == old_lines[i]);
                } else if i < start + n {
                    assert(written[i] == block_lines[i - start]);
                } else {
                    assert(written[i] == old_lines[i - n - start + end + 1]);
                }
            },
            None => {
                if old_lines.len() > 0 && has_shebang(old_lines[0]) {
                    if i == 0 {
                        assert(written[i] == old_lines[0]);
                    } else if i == 1 {
                        assert(written[i].len() == 0);
                    } else if i < 2 + n {
                        assert(written[i] == block_lines[i - 2]);
                    } else if i == 2 + n {
                        assert(written[i].len() == 0);
                    } else {
                        assert(written[i] == old_lines[i - n - 2]);
                    }
                } else {
                    if i < n {
                        assert(written[i] == block_lines[i]);
                    } else if i == n {
                        assert(written[i].len() == 0);
                    } else {
                        assert(written[i] == old_lines[i - n - 1]);
                    }
                }
            },
        }
    }
}

/// The lines of the text that an upsert writes, where they are plain and
/// do not end in two empty lines: the block stands among them behind
/// lines without markers, the first line is an interpreter line, the last
/// line is not empty, and the text is these lines joined and closed by a
/// newline.
proof fn lemma_upsert_result(lines: Seq<Seq<char>>, block: Seq<Seq<char>>) -> (parts: (
    Seq<Seq<char>>,
    Seq<Seq<char>>,
))
    requires
        is_managed_block(block),
        plain_lines(upsert_lines(lines, block)),
        !ends_in_two_empty_lines(upsert_lines(lines, block)),
    ensures
        ({
            let text = with_shebang(normalized_join(upsert_lines(lines, block)));
            let all = parts.0 + block + parts.1;
            &&& marker_free(parts.0)
            &&& lines_of(text) == all
            &&& text == join_lines(all).push('\n')
            &&& plain_lines(all)
            &&& has_shebang(all[0])
            &&& all.last().len() > 0
        }),
{
    lemma_marker_facts();
    lemma_upsert_shape(lines, block);
    let before = kept_before(lines);
    let after = kept_after(lines);
    let written = upsert_lines(lines, block);
    assert(written == before + block + after);
    lemma_written_text(written);
    let back = lines_read_back(written);
    let tail = if after.len() > 0 && after.last().len() == 0 {
        after.drop_last()
    } else {
        after
    };
    assert(written.len() >= 2);
    assert(written[before.len() + block.len() - 1] == block[block.len() - 1]);
    if after.len() > 0 {
        assert(written.last() == after.last());
    } else {
        assert(written.last() == block[block.len() - 1]);
    }
    assert(back =~= before + block + tail);
    assert(back[before.len() as int] == block[0]);
    assert(back.last().len() > 0) by {
        if tail.len() > 0 {
            assert(back.last() == tail.last());
            if after.len() > 0 && after.last().len() == 0 {
                assert(tail.last() == after[after.len() - 2]);
                assert(written[written.len() - 2] == after[after.len() - 2]);
            }
        } else {
            assert(back.last() == block[block.len() - 1]);
        }
    }
    let all = lines_with_shebang(back);
    if has_shebang(back[0]) {
        assert(before.len() > 0);
        assert(all =~= before + block + tail);
        (before, tail)
    } else {
        let head = seq![default_shebang()] + before;
        assert(all =~= head + block + tail);
        assert forall|i: int| 0 <= i < head.len() implies #[trigger] head[i] != begin_marker()
            && head[i] != end_marker() by {
            if i > 0 {
                assert(head[i] == before[i - 1]);
            }
        }
        assert(all.last() == back.last());
        (head, tail)
    }
}

/// The text that an upsert of a managed block writes holds a managed
/// block that the search finds.
pub proof fn lemma_upsert_result_has_block(existing: Seq<char>, block: Seq<char>)
    requires
        is_managed_block(lines_of(block)),
        no_stray_cr(upsert_lines(lines_of(existing), lines_of(block))),
        !ends_in_two_empty_lines(upsert_lines(lines_of(existing), lines_of(block))),
    ensures
        block_range(lines_of(upserted_text(existing, block))).is_some(),
{
    lemma_upsert_lines_are_plain(existing, block);
    let block_lines = lines_of(block);
    let parts = lemma_upsert_result(lines_of(existing), block_lines);
    lemma_block_in_place(parts.0, block_lines, parts.1);
}

/// An upsert done twice is an upsert done once: upserting a managed block
/// into the text that an upsert of the same block wrote gives that text
/// again. This holds where none of the lines written ends in a carriage
/// return and the last two of them are not both empty: reading a text
/// back drops a carriage return at the end of a line, and the last of
/// several empty lines at the end of the text.
pub proof fn lemma_upsert_is_idempotent(existing: Seq<char>, block: Seq<char>)
    requires
        is_managed_block(lines_of(block)),
        block_search(lines_of(existing)).is_ok(),
        no_stray_cr(upsert_lines(lines_of(existing), lines_of(block))),
        !ends_in_two_empty_lines(upsert_lines(lines_of(existing), lines_of(block))),
    ensures
        match upsert_text(existing, block) {
            Ok(first) => upsert_text(first, block) == Ok::<Seq<char>, BlockError>(first),
            Err(_) => false,
        },
{
    lemma_upsert_lines_are_plain(existing, block);
    let block_lines = lines_of(block);
    let parts = lemma_upsert_result(lines_of(existing), block_lines);
    let first = upserted_text(existing, block);
    let all = parts.0 + block_lines + parts.1;
    lemma_block_in_place(parts.0, block_lines, parts.1);
    lemma_written_text(all);
    assert(lines_read_back(all) == all);
    assert(lines_with_shebang(all) == all);
    assert(upserted_text(first, block) == first);
    assert(block_search(lines_of(first)).is_ok());
}

/// The same for a file that did not exist: upserting a managed block into
/// the text that the first upsert created gives that text again, where the
/// block's text is its plain lines joined and closed by a newline.
pub proof fn lemma_upsert_after_create_is_idempotent(block: Seq<char>)
    requires
        is_managed_block(lines_of(block)),
        no_stray_cr(lines_of(block)),
        block == normalized_join(lines_of(block)),
    ensures
        match upsert_spec(None, block) {
            Ok(created) => upsert_spec(Some(created), block) == Ok::<Seq<char>, BlockError>(
                created,
            ),
            Err(_) => false,
        },
{
    lemma_marker_facts();
    lemma_lines_hold_no_newline(block);
    let block_lines = lines_of(block);
    let created = with_shebang(block);
    lemma_normalized_join_form(block_lines);
    assert(lines_read_back(block_lines) == block_lines);
    lemma_shebang_of_joined(block_lines);
    let head = seq![default_shebang()];
    let all = head + block_lines;
    lemma_join_cons(default_shebang(), block_lines);
    assert(created =~= join_lines(all).push('\n'));
    assert(plain_lines(all)) by {
        assert forall|i: int| 0 <= i < all.len() implies no_newline(#[trigger] all[i])
            && strip_cr(all[i]) == all[i] by {
            if i > 0 {
                assert(all[i] == block_lines[i - 1]);
            }
        }
    }
    lemma_lines_of_joined(all);
    assert(all =~= head + block_lines + Seq::<Seq<char>>::empty());
    lemma_block_in_place(head, block_lines, Seq::empty());
    lemma_written_text(all);
    assert(all.last() == block_lines.last());
    assert(lines_read_back(all) == all);
    assert(lines_with_shebang(all) == all);
    assert(upserted_text(created, block) == created);
    assert(block_search(lines_of(created)).is_ok());
}

/// Creating a hook from a managed block and uninstalling the block leaves
/// the interpreter line and nothing else.
pub proof fn lemma_uninstall_after_create(block: Seq<char>)
    requires
        is_managed_block(lines_of(block)),
    ensures
        match upsert_spec(None, block) {
            Ok(created) => uninstall_text(created) == Ok::<Seq<char>, BlockError>(
                default_shebang().push('\n'),
            ),
            Err(_) => false,
        },
{
    lemma_marker_facts();
    let block_lines = lines_of(block);
    lemma_first_line_shebang(block);
    let created = with_shebang(block);
    assert(created =~= default_shebang() + seq!['\n'] + block);
    lemma_lines_of_cons(default_shebang(), block);
    let head = seq![default_shebang()];
    let all = head + block_lines;
    assert(all =~= head + block_lines + Seq::<Seq<char>>::empty());
    lemma_block_in_place(head, block_lines, Seq::empty());
    assert(all.take(1) + all.skip(block_lines.len() as int + 1) =~= head);
    assert(join_lines(head) == default_shebang());
}

/// A text begins with an interpreter line exactly where its first line is
/// one.
pub proof fn lemma_first_line_shebang(text: Seq<char>)
    requires
        lines_of(text).len() > 0,
    ensures
        has_shebang(text) == has_shebang(lines_of(text)[0]),
{
    crate::lines::lemma_newline_index(text);
    let n = crate::lines::newline_index(text) as int;
    if n < text.len() {
        let first = strip_cr(text.take(n));
        assert(lines_of(text)[0] == first);
        assert(forall|i: int| 0 <= i < first.len() ==> first[i] == text[i]);
        if n >= 2 && first.len() < 2 {
            assert(text.take(n).last() == '\r');
        }
    }
}

/// Disabling after an upsert changes one line and no other: where the
/// block that was upserted holds exactly one line that sets the flag, the
/// text after disabling has the same lines as the text before it, but for
/// that line, which now sets the flag to `0`. The line stands as far
/// behind the first begin marker as it stands in the block.
pub proof fn lemma_disable_after_upsert(existing: Seq<char>, block: Seq<char>, flag_at: int)
    requires
        is_managed_block(lines_of(block)),
        block_search(lines_of(existing)).is_ok(),
        0 <= flag_at < lines_of(block).len(),
        forall|i: int|
            0 <= i < lines_of(block).len() ==> (is_flag_line(#[trigger] lines_of(block)[i]) <==> i
                == flag_at),
        no_stray_cr(upsert_lines(lines_of(existing), lines_of(block))),
        !ends_in_two_empty_lines(upsert_lines(lines_of(existing), lines_of(block))),
    ensures
        match upsert_text(existing, block) {
            Ok(written) => {
                let before = lines_of(written);
                let at = first_index(before, begin_marker()) + flag_at;
                &&& at < before.len()
                &&& before[at] == lines_of(block)[flag_at]
                &&& match disable_text(written) {
                    Ok(after) => lines_of(after) == before.update(at, DISABLED_FLAG_LINE@),
                    Err(_) => false,
                }
            },
            Err(_) => false,
        },
{
    lemma_upsert_lines_are_plain(existing, block);
    lemma_marker_facts();
    let block_lines = lines_of(block);
    let parts = lemma_upsert_result(lines_of(existing), block_lines);
    let before = parts.0 + block_lines + parts.1;
    lemma_block_in_place(parts.0, block_lines, parts.1);
    lemma_found_range(before);
    let start = parts.0.len() as int;
    let end = start + block_lines.len() - 1;
    lemma_first_index_is(before, begin_marker(), start);
    let at = start + flag_at;
    assert(before[at] == block_lines[flag_at]);
    assert(is_flag_line(before[at]));
    assert(has_flag_line(before, start, end));
    let changed = disable_lines(before, start, end);
    assert(changed =~= before.update(at, DISABLED_FLAG_LINE@)) by {
        assert forall|i: int| 0 <= i < before.len() implies changed[i] == before.update(
            at,
            DISABLED_FLAG_LINE@,
        )[i] by {
            if start <= i <= end {
                assert(before[i] == block_lines[i - start]);
            }
        }
    }
    reveal_strlit("GHI_ENABLED=0");
    assert(plain_lines(changed)) by {
        assert forall|i: int| 0 <= i < changed.len() implies no_newline(#[trigger] changed[i])
            && strip_cr(changed[i]) == changed[i] by {
            if i != at {
                assert(changed[i] == before[i]);
            }
        }
    }
    assert(changed.last().len() > 0) by {
        if at != before.len() - 1 {
            assert(changed.last() == before.last());
        }
    }
    lemma_lines_of_normalized_join(changed);
}

/// The markers set no flag, and the line that switches the block off
/// does; it is plain.
pub proof fn lemma_flag_line_facts()
    ensures
        !is_flag_line(begin_marker()),
        !is_flag_line(end_marker()),
        is_flag_line(DISABLED_FLAG_LINE@),
        no_newline(DISABLED_FLAG_LINE@),
        strip_cr(DISABLED_FLAG_LINE@) == DISABLED_FLAG_LINE@,
        DISABLED_FLAG_LINE@.len() > 0,
        DISABLED_FLAG_LINE@ != begin_marker(),
        DISABLED_FLAG_LINE@ != end_marker(),
{
    reveal_strlit("# >>> git-hook-installer managed block >>>");
    reveal_strlit("# <<< git-hook-installer managed block <<<");
    reveal_strlit("GHI_ENABLED=");
    reveal_strlit("GHI_ENABLED=0");
    let begin = begin_marker();
    let end = end_marker();
    let off = DISABLED_FLAG_LINE@;
    let prefix = ENABLED_FLAG_PREFIX@;
    assert(!is_space(begin[0]) && !is_space(end[0]) && !is_space(off[0]));
    lemma_leading_spaces_is(begin, 0);
    lemma_leading_spaces_is(end, 0);
    lemma_leading_spaces_is(off, 0);
    assert(trim_start(begin) =~= begin);
    assert(trim_start(end) =~= end);
    assert(trim_start(off) =~= off);
    assert(begin.take(prefix.len() as int)[0] != prefix[0]);
    assert(end.take(prefix.len() as int)[0] != prefix[0]);
    assert(off.take(prefix.len() as int) =~= prefix);
    assert(off[0] != begin[0]);
}

/// Disabling what was disabled changes nothing: the text that disabling
/// wrote is disabled to itself. This holds where no line of the text ends
/// in a carriage return and its last two lines are not both empty.
pub proof fn lemma_disable_is_idempotent(text: Seq<char>)
    requires
        disable_text(text).is_ok(),
        no_stray_cr(lines_of(text)),
        !ends_in_two_empty_lines(lines_of(text)),
    ensures
        match disable_text(text) {
            Ok(disabled) => disable_text(disabled) == Ok::<Seq<char>, BlockError>(disabled),
            Err(_) => false,
        },
{
    lemma_marker_facts();
    lemma_flag_line_facts();
    lemma_lines_hold_no_newline(text);
    let lines = lines_of(text);
    lemma_found_range(lines);
    let range = block_range(lines).unwrap();
    let start = range.0;
    let end = range.1;
    let changed = disable_lines(lines, start, end);
    let disabled = normalized_join(changed);
    assert(plain_lines(changed)) by {
        assert forall|i: int| 0 <= i < changed.len() implies no_newline(#[trigger] changed[i])
            && strip_cr(changed[i]) == changed[i] by {
            assert(no_newline(lines[i]) && strip_cr(lines[i]) == lines[i]);
        }
    }
    lemma_lines_of_normalized_join(changed);
    lemma_normalized_join_form(changed);
    let back = lines_read_back(changed);
    assert(lines_of(disabled) == back);
    assert(changed[start] == begin_marker());
    assert(changed[end] == end_marker());
    assert(end < back.len()) by {
        if changed.len() >= 2 && changed.last().len() == 0 {
            assert(end != changed.len() - 1);
        }
    }
    assert forall|i: int| 0 <= i < back.len() implies #[trigger] back[i] == changed[i] by {}
    assert forall|i: int| 0 <= i < start implies back[i] != begin_marker() by {
        assert(lines[i] != begin_marker());
    }
    assert forall|i: int| 0 <= i < end implies back[i] != end_marker() by {
        assert(lines[i] != end_marker());
    }
    lemma_search_finds_first_pair(back, start, end);
    let witness = choose|i: int|
        start <= i <= end && 0 <= i < lines.len() && is_flag_line(#[trigger] lines[i]);
    assert(back[witness] == DISABLED_FLAG_LINE@);
    assert(has_flag_line(back, start, end));
    let again = disable_lines(back, start, end);
    assert(again =~= back) by {
        assert forall|i: int| 0 <= i < back.len() implies again[i] == back[i] by {
            if start <= i <= end && is_flag_line(back[i]) {
                if is_flag_line(lines[i]) {
                } else {
                    assert(back[i] == lines[i]);
                }
            }
        }
    }
    lemma_normalized_join_form(back);
    assert(lines_read_back(back) =~= back) by {
        if changed.len() >= 2 && changed.last().len() == 0 {
            assert(back.last() == changed[changed.len() - 2]);
            assert(changed[changed.len() - 2].len() > 0) by {
                let k = changed.len() - 2;
                assert(lines[k].len() > 0 || lines[k + 1].len() > 0);
                assert(changed[k + 1].len() == 0);
                if lines[k + 1].len() > 0 {
                    assert(changed[k + 1] == DISABLED_FLAG_LINE@);
                }
            }
        }
    }
}

} // verus!

//! The managed block of a hook script: a run of lines between two marker
//! lines that this library owns, inside a file that it does not own.
//!
//! All functions here are pure: text in, text out. A text is read as its
//! lines and written back with single newlines and a newline at the end.

use vstd::prelude::*;
use crate::lines::{
    copy_chars, copy_range, join_normalized, line_views, lines_of, normalized_join, split_lines,
};
use crate::seqs::{first_index, lemma_first_index, lemma_first_index_is, starts_with};
use crate::text::{chars_of, count_leading_spaces, has_prefix, same_chars, string_of, trim_start};
use crate::types::ErrorKind;

verus! {

/// The line that opens the managed block.
pub const MANAGED_BLOCK_BEGIN: &'static str = "# >>> git-hook-installer managed block >>>";

/// The line that closes the managed block.
pub const MANAGED_BLOCK_END: &'static str = "# <<< git-hook-installer managed block <<<";

/// The start of the line that sets the flag by which the block is switched
/// on and off.
pub const ENABLED_FLAG_PREFIX: &'static str = "GHI_ENABLED=";

/// The line that switches the block off.
pub const DISABLED_FLAG_LINE: &'static str = "GHI_ENABLED=0";

/// Why a managed block could not be used.
#[derive(Clone, Copy, Debug, PartialEq, Eq, Structural)]
pub enum BlockError {
    /// The text holds neither marker.
    NotFound,
    /// A begin marker stands in the text and no end marker.
    UnterminatedBlock,
    /// An end marker stands in the text with no begin marker before it.
    EndBeforeBegin,
    /// The block holds no line that sets the flag.
    MissingEnabledFlag,
}

impl BlockError {
    /// The kind of this error.
    pub open spec fn kind_spec(self) -> ErrorKind {
        match self {
            BlockError::NotFound => ErrorKind::NotFound,
            _ => ErrorKind::Malformed,
        }
    }

    /// The kind of this error: an absent block is `NotFound`, every other
    /// error is `Malformed`.
    pub fn kind(&self) -> (k: ErrorKind)
        ensures
            k == self.kind_spec(),
    {
        match self {
            BlockError::NotFound => ErrorKind::NotFound,
            _ => ErrorKind::Malformed,
        }
    }

    /// The sentence shown to a person for this error.
    pub open spec fn message_spec(self) -> Seq<char> {
        match self {
            BlockError::NotFound => "No managed git-hook-installer block found in pre-commit hook"@,
            BlockError::UnterminatedBlock =>
                "Managed block begins but never ends in pre-commit hook"@,
            BlockError::EndBeforeBegin => "Invalid managed block markers in pre-commit hook"@,
            BlockError::MissingEnabledFlag =>
                "Managed block found, but no GHI_ENABLED setting line was found"@,
        }
    }

    /// The sentence shown to a person for this error.
    pub fn message(&self) -> (m: &'static str)
        ensures
            m@ == self.message_spec(),
    {
        match self {
            BlockError::NotFound => "No managed git-hook-installer block found in pre-commit hook",
            BlockError::UnterminatedBlock =>
                "Managed block begins but never ends in pre-commit hook",
            BlockError::EndBeforeBegin => "Invalid managed block markers in pre-commit hook",
            BlockError::MissingEnabledFlag =>
                "Managed block found, but no GHI_ENABLED setting line was found",
        }
    }
}

/// The begin marker as a line.
pub open spec fn begin_marker() -> Seq<char> {
    MANAGED_BLOCK_BEGIN@
}

/// The end marker as a line.
pub open spec fn end_marker() -> Seq<char> {
    MANAGED_BLOCK_END@
}

/// The interpreter line given to a script that has none.
pub open spec fn default_shebang() -> Seq<char> {
    seq!['#', '!', '/', 'b', 'i', 'n', '/', 's', 'h']
}

/// What a search for the block finds. The block runs from the first begin
/// marker to the first end marker, both included, where the begin marker
/// comes first. No marker at all is no block. Any other arrangement is an
/// error.
pub open spec fn block_search(lines: Seq<Seq<char>>) -> Result<Option<(int, int)>, BlockError> {
    let b = first_index(lines, begin_marker()) as int;
    let e = first_index(lines, end_marker()) as int;
    if b >= lines.len() && e >= lines.len() {
        Ok(None)
    } else if e < b {
        Err(BlockError::EndBeforeBegin)
    } else if e >= lines.len() {
        Err(BlockError::UnterminatedBlock)
    } else {
        Ok(Some((b, e)))
    }
}

/// The block's first and last line, where the search finds a block.
pub open spec fn block_range(lines: Seq<Seq<char>>) -> Option<(int, int)> {
    match block_search(lines) {
        Ok(Some(range)) => Some(range),
        _ => None,
    }
}

/// Whether a text begins with an interpreter line.
pub open spec fn has_shebang(text: Seq<char>) -> bool {
    text.len() >= 2 && text[0] == '#' && text[1] == '!'
}

/// The text itself where it begins with an interpreter line, else the text
/// behind the default interpreter line.
pub open spec fn with_shebang(text: Seq<char>) -> Seq<char> {
    if has_shebang(text) {
        text
    } else {
        default_shebang().push('\n') + text
    }
}

/// The lines after an upsert of `block` into lines whose markers are in
/// order. A block that the search finds is replaced where it stands.
/// Otherwise the new block goes behind the interpreter line, with an empty
/// line on each side, or to the very top, with an empty line after it.
pub open spec fn upsert_lines(lines: Seq<Seq<char>>, block: Seq<Seq<char>>) -> Seq<Seq<char>> {
    match block_range(lines) {
        Some((start, end)) => lines.take(start) + block + lines.skip(end + 1),
        None => {
            if lines.len() > 0 && has_shebang(lines[0]) {
                lines.take(1) + seq![Seq::<char>::empty()] + block + seq![Seq::<char>::empty()]
                    + lines.skip(1)
            } else {
                block + seq![Seq::<char>::empty()] + lines
            }
        },
    }
}

/// The text that an upsert of `block` writes where the markers of the
/// existing text are in order: the lines after the upsert, joined, behind
/// an interpreter line.
pub open spec fn upserted_text(existing: Seq<char>, block: Seq<char>) -> Seq<char> {
    with_shebang(normalized_join(upsert_lines(lines_of(existing), lines_of(block))))
}

/// The text after an upsert of `block` into an existing text, or the
/// error of markers that are not in order: such a text is never taken for
/// one without a block.
pub open spec fn upsert_text(existing: Seq<char>, block: Seq<char>) -> Result<
    Seq<char>,
    BlockError,
> {
    match block_search(lines_of(existing)) {
        Err(e) => Err(e),
        Ok(_) => Ok(upserted_text(existing, block)),
    }
}

/// The text after an upsert of `block` into a file that may not exist yet:
/// with no file, the block behind an interpreter line is the whole file.
pub open spec fn upsert_spec(existing: Option<Seq<char>>, block: Seq<char>) -> Result<
    Seq<char>,
    BlockError,
> {
    match existing {
        None => Ok(with_shebang(block)),
        Some(text) => upsert_text(text, block),
    }
}

/// The text without its block, or why there is none to take out.
pub open spec fn uninstall_text(existing: Seq<char>) -> Result<Seq<char>, BlockError> {
    let lines = lines_of(existing);
    match block_search(lines) {
        Err(e) => Err(e),
        Ok(None) => Err(BlockError::NotFound),
        Ok(Some((start, end))) => Ok(normalized_join(lines.take(start) + lines.skip(end + 1))),
    }
}

/// Whether a line sets the flag: after white space it begins with the
/// flag's name and an equals sign.
pub open spec fn is_flag_line(line: Seq<char>) -> bool {
    starts_with(trim_start(line), ENABLED_FLAG_PREFIX@)
}

/// Whether a line between `start` and `end`, both included, sets the flag.
pub open spec fn has_flag_line(lines: Seq<Seq<char>>, start: int, end: int) -> bool {
    exists|i: int| start <= i <= end && 0 <= i < lines.len() && is_flag_line(#[trigger] lines[i])
}

/// The lines with every flag line between `start` and `end` switched off.
pub open spec fn disable_lines(lines: Seq<Seq<char>>, start: int, end: int) -> Seq<Seq<char>> {
    Seq::new(
        lines.len(),
        |i: int|
            if start <= i <= end && is_flag_line(lines[i]) {
                DISABLED_FLAG_LINE@
            } else {
                lines[i]
            },
    )
}

/// The text with its block switched off, or why it cannot be.
pub open spec fn disable_text(existing: Seq<char>) -> Result<Seq<char>, BlockError> {
    let lines = lines_of(existing);
    match block_search(lines) {
        Err(e) => Err(e),
        Ok(None) => Err(BlockError::NotFound),
        Ok(Some((start, end))) => if has_flag_line(lines, start, end) {
            Ok(normalized_join(disable_lines(lines, start, end)))
        } else {
            Err(BlockError::MissingEnabledFlag)
        },
    }
}

/// The index of the first line equal to `marker`, or the number of lines.
fn index_of_line(lines: &Vec<Vec<char>>, marker: &Vec<char>) -> (n: usize)
    ensures
        n == first_index(line_views(lines@), marker@),
        n <= lines.len(),
{
    let mut i: usize = 0;
    while i < lines.len()
        invariant
            i <= lines.len(),
            forall|j: int| 0 <= j < i ==> line_views(lines@)[j] != marker@,
        decreases lines.len() - i,
    {
        if same_chars(&lines[i], marker) {
            proof {
                lemma_first_index_is(line_views(lines@), marker@, i as int);
            }
            return i;
        }
        i += 1;
    }
    proof {
        lemma_first_index_is(line_views(lines@), marker@, i as int);
    }
    i
}

/// Searches the lines for the managed block and returns the indices of its
/// first and last line.
pub fn find_block(lines: &Vec<Vec<char>>) -> (r: Result<Option<(usize, usize)>, BlockError>)
    ensures
        match r {
            Ok(None) => block_search(line_views(lines@)) == Ok::<Option<(int, int)>, BlockError>(
                None,
            ),
            Ok(Some((start, end))) => block_search(line_views(lines@)) == Ok::<
                Option<(int, int)>,
                BlockError,
            >(Some((start as int, end as int))) && start < end < lines.len(),
            Err(e) => block_search(line_views(lines@)) == Err::<Option<(int, int)>, BlockError>(e),
        },
{
    let begin = chars_of(MANAGED_BLOCK_BEGIN);
    let end = chars_of(MANAGED_BLOCK_END);
    let b = index_of_line(lines, &begin);
    let e = index_of_line(lines, &end);
    if b >= lines.len() && e >= lines.len() {
        Ok(None)
    } else if e < b {
        Err(BlockError::EndBeforeBegin)
    } else if e >= lines.len() {
        Err(BlockError::UnterminatedBlock)
    } else {
        proof {
            lemma_markers_differ();
            lemma_first_index(line_views(lines@), begin@);
            lemma_first_index(line_views(lines@), end@);
        }
        Ok(Some((b, e)))
    }
}

/// The two markers are different lines.
pub proof fn lemma_markers_differ()
    ensures
        begin_marker() != end_marker(),
{
    reveal_strlit("# >>> git-hook-installer managed block >>>");
    reveal_strlit("# <<< git-hook-installer managed block <<<");
    assert(begin_marker()[2] == '>');
    assert(end_marker()[2] == '<');
}

/// Appends copies of the lines of `src` from `from` up to `to`.
fn append_lines(out: &mut Vec<Vec<char>>, src: &Vec<Vec<char>>, from: usize, to: usize)
    requires
        from <= to <= src.len(),
    ensures
        line_views(final(out)@) == line_views(old(out)@) + line_views(src@).subrange(
            from as int,
            to as int,
        ),
{
    let mut i: usize = from;
    assert(line_views(src@).subrange(from as int, from as int) == Seq::<Seq<char>>::empty());
    assert(line_views(out@) + Seq::<Seq<char>>::empty() == line_views(out@));
    while i < to
        invariant
            from <= i <= to <= src.len(),
            line_views(out@) == line_views(old(out)@) + line_views(src@).subrange(
                from as int,
                i as int,
            ),
        decreases to - i,
    {
        let line = copy_chars(&src[i]);
        proof {
            assert(line@ == src@[i as int]@);
            assert(line_views(out@.push(line)) == line_views(out@).push(line@));
            assert(line_views(src@).subrange(from as int, i + 1) == line_views(src@).subrange(
                from as int,
                i as int,
            ).push(line@));
        }
        out.push(line);
        i += 1;
    }
}

/// Whether the characters begin with `#!`.
fn begins_with_shebang(text: &Vec<char>) -> (r: bool)
    ensures
        r == has_shebang(text@),
{
    text.len() >= 2 && text[0] == '#' && text[1] == '!'
}

/// Puts the default interpreter line before a text that has none.
fn with_shebang_chars(text: Vec<char>) -> (r: Vec<char>)
    ensures
        r@ == with_shebang(text@),
{
    if begins_with_shebang(&text) {
        return text;
    }
    let mut out: Vec<char> = vec!['#', '!', '/', 'b', 'i', 'n', '/', 's', 'h', '\n'];
    assert(out@ == default_shebang().push('\n'));
    let mut text = text;
    out.append(&mut text);
    out
}

/// Returns the contents as they are if they begin with an interpreter
/// line (`#!`), and behind the line `#!/bin/sh` if they do not.
pub fn ensure_shebang(contents: &str) -> (r: String)
    ensures
        r@ == with_shebang(contents@),
{
    let chars = chars_of(contents);
    string_of(&with_shebang_chars(chars))
}

/// The lines after an upsert of `block` into `lines`, or the error of
/// markers that are not in order.
fn upsert_in_lines(lines: &Vec<Vec<char>>, block: &Vec<Vec<char>>) -> (r: Result<
    Vec<Vec<char>>,
    BlockError,
>)
    ensures
        match r {
            Ok(out) => block_search(line_views(lines@)).is_ok() && line_views(out@) == upsert_lines(
                line_views(lines@),
                line_views(block@),
            ),
            Err(e) => block_search(line_views(lines@)) == Err::<Option<(int, int)>, BlockError>(e),
        },
{
    let ghost lv = line_views(lines@);
    let ghost bv = line_views(block@);
    let mut out: Vec<Vec<char>> = Vec::new();
    assert(line_views(out@) == Seq::<Seq<char>>::empty());
    match find_block(lines) {
        Err(e) => {
            return Err(e);
        },
        Ok(Some((start, end))) => {
            append_lines(&mut out, lines, 0, start);
            append_lines(&mut out, block, 0, block.len());
            append_lines(&mut out, lines, end + 1, lines.len());
            proof {
                assert(bv.subrange(0, bv.len() as int) == bv);
                assert(lv.subrange(0, start as int) == lv.take(start as int));
                assert(lv.subrange(end + 1, lv.len() as int) == lv.skip(end + 1));
                assert(Seq::<Seq<char>>::empty() + lv.take(start as int) == lv.take(start as int));
            }
        },
        Ok(None) => {
            let after_shebang = lines.len() > 0 && begins_with_shebang(&lines[0]);
            if after_shebang {
                append_lines(&mut out, lines, 0, 1);
                let ghost o1 = line_views(out@);
                out.push(Vec::new());
                assert(line_views(out@) == o1.push(Seq::<char>::empty()));
                append_lines(&mut out, block, 0, block.len());
                let ghost o2 = line_views(out@);
                out.push(Vec::new());
                assert(line_views(out@) == o2.push(Seq::<char>::empty()));
                append_lines(&mut out, lines, 1, lines.len());
                proof {
                    assert(bv.subrange(0, bv.len() as int) == bv);
                    assert(lv.subrange(0, 1) == lv.take(1));
                    assert(lv.subrange(1, lv.len() as int) == lv.skip(1));
                    assert(Seq::<Seq<char>>::empty() + lv.take(1) == lv.take(1));
                    assert(lv.take(1).push(Seq::<char>::empty()) == lv.take(1)
                        + seq![Seq::<char>::empty()]);
                    assert(o2.push(Seq::<char>::empty()) == o2 + seq![Seq::<char>::empty()]);
                }
            } else {
                append_lines(&mut out, block, 0, block.len());
                let ghost o2 = line_views(out@);
                out.push(Vec::new());
                assert(line_views(out@) == o2.push(Seq::<char>::empty()));
                append_lines(&mut out, lines, 0, lines.len());
                proof {
                    assert(bv.subrange(0, bv.len() as int) == bv);
                    assert(lv.subrange(0, lv.len() as int) == lv);
                    assert(Seq::<Seq<char>>::empty() + bv == bv);
                    assert(o2.push(Seq::<char>::empty()) == o2 + seq![Seq::<char>::empty()]);
                }
            }
        },
    }
    Ok(out)
}

/// Puts `block` into an existing hook text: in place of the managed block
/// where the text has one, else behind the interpreter line or at the top.
/// The result begins with an interpreter line and ends in a newline. A
/// text whose markers are not in order is refused with its error.
pub fn upsert_managed_block(existing: &str, block: &str) -> (r: Result<String, BlockError>)
    ensures
        match r {
            Ok(text) => upsert_text(existing@, block@) == Ok::<Seq<char>, BlockError>(text@),
            Err(e) => upsert_text(existing@, block@) == Err::<Seq<char>, BlockError>(e),
        },
{
    let lines = split_lines(&chars_of(existing));
    let block_lines = split_lines(&chars_of(block));
    match upsert_in_lines(&lines, &block_lines) {
        Err(e) => Err(e),
        Ok(out) => Ok(string_of(&with_shebang_chars(join_normalized(&out)))),
    }
}

/// The view of the contents of a file that may not exist.
pub open spec fn contents_view(existing: Option<&str>) -> Option<Seq<char>> {
    match existing {
        Some(text) => Some(text@),
        None => None,
    }
}

/// Puts `block` into a hook file that may not exist yet. With no file the
/// block, behind an interpreter line, is the whole content.
pub fn upsert(existing: Option<&str>, block: &str) -> (r: Result<String, BlockError>)
    ensures
        match r {
            Ok(text) => upsert_spec(contents_view(existing), block@) == Ok::<
                Seq<char>,
                BlockError,
            >(text@),
            Err(e) => upsert_spec(contents_view(existing), block@) == Err::<
                Seq<char>,
                BlockError,
            >(e),
        },
{
    match existing {
        None => Ok(ensure_shebang(block)),
        Some(text) => upsert_managed_block(text, block),
    }
}

/// Takes the managed block out of a hook text, markers included, and
/// leaves every other line as it was.
pub fn uninstall_managed_block(existing: &str) -> (r: Result<String, BlockError>)
    ensures
        match r {
            Ok(text) => uninstall_text(existing@) == Ok::<Seq<char>, BlockError>(text@),
            Err(e) => uninstall_text(existing@) == Err::<Seq<char>, BlockError>(e),
        },
{
    let lines = split_lines(&chars_of(existing));
    let ghost lv = line_views(lines@);
    match find_block(&lines) {
        Err(e) => Err(e),
        Ok(None) => Err(BlockError::NotFound),
        Ok(Some((start, end))) => {
            let mut out: Vec<Vec<char>> = Vec::new();
            assert(line_views(out@) == Seq::<Seq<char>>::empty());
            append_lines(&mut out, &lines, 0, start);
            append_lines(&mut out, &lines, end + 1, lines.len());
            proof {
                assert(lv.subrange(0, start as int) == lv.take(start as int));
                assert(lv.subrange(end + 1, lv.len() as int) == lv.skip(end + 1));
                assert(Seq::<Seq<char>>::empty() + lv.take(start as int) == lv.take(start as int));
            }
            Ok(string_of(&join_normalized(&out)))
        },
    }
}

/// Whether a line sets the flag.
fn line_sets_flag(line: &Vec<char>, prefix: &Vec<char>) -> (r: bool)
    requires
        prefix@ == ENABLED_FLAG_PREFIX@,
    ensures
        r == is_flag_line(line@),
{
    let skip = count_leading_spaces(line);
    let rest = copy_range(line, skip, line.len());
    assert(rest@ == trim_start(line@));
    has_prefix(&rest, prefix)
}

/// Switches the managed block of a hook text off: every line of the block
/// that sets the flag becomes the line that sets it to `0`. All other
/// lines stay as they were.
pub fn disable_managed_block(existing: &str) -> (r: Result<String, BlockError>)
    ensures
        match r {
            Ok(text) => disable_text(existing@) == Ok::<Seq<char>, BlockError>(text@),
            Err(e) => disable_text(existing@) == Err::<Seq<char>, BlockError>(e),
        },
{
    let lines = split_lines(&chars_of(existing));
    let ghost lv = line_views(lines@);
    match find_block(&lines) {
        Err(e) => Err(e),
        Ok(None) => Err(BlockError::NotFound),
        Ok(Some((start, end))) => {
            let prefix = chars_of(ENABLED_FLAG_PREFIX);
            let mut did_change = false;
            let mut out: Vec<Vec<char>> = Vec::new();
            let mut i: usize = 0;
            while i < lines.len()
                invariant
                    i <= lines.len(),
                    start < end < lines.len(),
                    lv == line_views(lines@),
                    prefix@ == ENABLED_FLAG_PREFIX@,
                    line_views(out@) == disable_lines(lv, start as int, end as int).take(i as int),
                    did_change == has_flag_line(lv.take(i as int), start as int, end as int),
                decreases lines.len() - i,
            {
                let ghost before = line_views(out@);
                let ghost target = disable_lines(lv, start as int, end as int);
                let in_block = start <= i && i <= end;
                let flagged = in_block && line_sets_flag(&lines[i], &prefix);
                let line = if flagged {
                    chars_of(DISABLED_FLAG_LINE)
                } else {
                    copy_chars(&lines[i])
                };
                proof {
                    assert(lines@[i as int]@ == lv[i as int]);
                    assert(line@ == target[i as int]);
                    assert(line_views(out@.push(line)) == before.push(line@));
                    assert(target.take(i + 1) == target.take(i as int).push(target[i as int]));
                    let shorter = lv.take(i as int);
                    let longer = lv.take(i + 1);
                    if has_flag_line(shorter, start as int, end as int) {
                        let k = choose|k: int|
                            start <= k <= end && 0 <= k < shorter.len() && is_flag_line(
                                #[trigger] shorter[k],
                            );
                        assert(longer[k] == shorter[k]);
                    }
                    if flagged {
                        assert(is_flag_line(longer[i as int]));
                    }
                    if has_flag_line(longer, start as int, end as int) && !flagged {
                        let k = choose|k: int|
                            start <= k <= end && 0 <= k < longer.len() && is_flag_line(
                                #[trigger] longer[k],
                            );
                        assert(k < i);
                        assert(longer[k] == shorter[k]);
                    }
                }
                if flagged {
                    did_change = true;
                }
                out.push(line);
                i += 1;
            }
            proof {
                assert(lv.take(lines.len() as int) == lv);
                let target = disable_lines(lv, start as int, end as int);
                assert(target.take(lines.len() as int) == target);
            }
            if !did_change {
                return Err(BlockError::MissingEnabledFlag);
            }
            Ok(string_of(&join_normalized(&out)))
        },
    }
}

/// Joins lines with single newlines, so that the text ends in exactly the
/// newline that closes its last line.
pub fn normalize_newline_join(lines: &Vec<Vec<char>>) -> (r: String)
    ensures
        r@ == normalized_join(line_views(lines@)),
{
    string_of(&join_normalized(lines))
}

} // verus!

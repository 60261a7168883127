//! What can be told about a hook file from its contents and from the
//! names beside it, for a report on the state of a repository.

use vstd::prelude::*;
use crate::cargo_repo::{ManifestChoice, ManifestError};
use crate::hook_files::BACKUP_SUFFIX;
use crate::lines::{copy_range, line_views, lines_of, split_lines};
use crate::managed_block::{block_search, find_block, has_shebang, BlockError};
use crate::names::{
    chars_as_names, lemma_with_prefix_holds, name_views, names_as_chars, with_prefix,
};
use crate::order::{names_rising, sort_names};
use crate::paths::{text_of_path, FsPath};
use crate::seqs::starts_with;
use crate::text::{chars_of, has_prefix, same_chars, string_of, trim, trimmed};

verus! {

/// The command that changes the directory, with the blank behind it.
pub const CD_PREFIX: &'static str = "cd ";

/// The line that runs `cargo fmt`.
pub const CARGO_FMT_LINE: &'static str = "cargo fmt";

/// What stands before the manifest directory in the report.
pub const MANIFEST_DIR_NOTE: &'static str = "Cargo manifest dir (for comparison): ";

/// What a hook file holds.
#[derive(Debug, PartialEq, Eq)]
pub struct HookReport {
    /// The managed block: the indices of its first and last line, none
    /// where the file has no block, and the error of a block that is not
    /// well formed.
    pub block: Result<Option<(usize, usize)>, BlockError>,
    /// Whether a line of the hook, white space aside, is `cargo fmt`.
    pub runs_cargo_fmt: bool,
    /// The directory that the hook changes into first, if it does.
    pub cd_dir: Option<String>,
    /// The number of lines.
    pub line_count: usize,
    /// Whether the hook begins with an interpreter line.
    pub has_shebang: bool,
}

/// `text` without `prefix` at its start, as often as it stands there.
pub open spec fn without_leading(text: Seq<char>, prefix: Seq<char>) -> Seq<char>
    decreases text.len(),
{
    if prefix.len() > 0 && starts_with(text, prefix) {
        without_leading(text.skip(prefix.len() as int), prefix)
    } else {
        text
    }
}

/// `text` without the double quotes around it, where it has them.
pub open spec fn unquoted(text: Seq<char>) -> Seq<char> {
    if text.len() >= 2 && text[0] == '"' && text.last() == '"' {
        text.subrange(1, text.len() - 1)
    } else {
        text
    }
}

/// The directory that a line changes into: none where the line, white
/// space aside, does not begin with `cd `.
pub open spec fn cd_dir_of_line(line: Seq<char>) -> Option<Seq<char>> {
    let command = trim(line);
    if starts_with(command, CD_PREFIX@) {
        Some(unquoted(trim(without_leading(command, CD_PREFIX@))))
    } else {
        None
    }
}

/// The directory that the first `cd` among the lines changes into.
pub open spec fn first_cd_dir(lines: Seq<Seq<char>>) -> Option<Seq<char>>
    decreases lines.len(),
{
    if lines.len() == 0 {
        None
    } else {
        match cd_dir_of_line(lines[0]) {
            Some(dir) => Some(dir),
            None => first_cd_dir(lines.skip(1)),
        }
    }
}

/// Whether a line, white space aside, is `wanted`.
pub open spec fn any_line_is(lines: Seq<Seq<char>>, wanted: Seq<char>) -> bool {
    exists|i: int| 0 <= i < lines.len() && trim(#[trigger] lines[i]) == wanted
}

/// The directory that a line changes into.
fn line_cd_dir(line: &Vec<char>, prefix: &Vec<char>) -> (r: Option<Vec<char>>)
    requires
        prefix@ == CD_PREFIX@,
        prefix@.len() > 0,
    ensures
        match r {
            Some(dir) => cd_dir_of_line(line@) == Some(dir@),
            None => cd_dir_of_line(line@).is_none(),
        },
{
    let command = trimmed(line);
    if !has_prefix(&command, prefix) {
        return None;
    }
    let mut start: usize = 0;
    let mut rest = copy_range(&command, 0, command.len());
    assert(rest@ == command@);
    while has_prefix(&rest, prefix)
        invariant
            prefix@ == CD_PREFIX@,
            prefix@.len() > 0,
            without_leading(command@, prefix@) == without_leading(rest@, prefix@),
        decreases rest.len(),
    {
        let shorter = copy_range(&rest, prefix.len(), rest.len());
        assert(shorter@ == rest@.skip(prefix@.len() as int));
        rest = shorter;
    }
    let raw = trimmed(&rest);
    let n = raw.len();
    if n >= 2 && raw[0] == '"' && raw[n - 1] == '"' {
        Some(copy_range(&raw, 1, n - 1))
    } else {
        Some(raw)
    }
}

/// Reads from the contents of a hook the directory that it changes into:
/// the argument of the first `cd` command, without the double quotes
/// around it.
pub fn parse_cd_dir(contents: &str) -> (r: Option<String>)
    ensures
        match r {
            Some(dir) => first_cd_dir(lines_of(contents@)) == Some(dir@),
            None => first_cd_dir(lines_of(contents@)).is_none(),
        },
{
    let lines = split_lines(&chars_of(contents));
    let prefix = chars_of(CD_PREFIX);
    proof {
        reveal_strlit("cd ");
    }
    let ghost views = line_views(lines@);
    let mut i: usize = 0;
    assert(views.skip(0) == views);
    assert(views == lines_of(contents@));
    while i < lines.len()
        invariant
            i <= lines.len(),
            views == line_views(lines@),
            views == lines_of(contents@),
            prefix@ == CD_PREFIX@,
            prefix@.len() > 0,
            first_cd_dir(views) == first_cd_dir(views.skip(i as int)),
        decreases lines.len() - i,
    {
        proof {
            assert(views.skip(i as int).len() > 0);
            assert(views.skip(i as int)[0] == lines@[i as int]@);
            assert(views.skip(i as int).skip(1) == views.skip(i + 1));
        }
        match line_cd_dir(&lines[i], &prefix) {
            Some(dir) => {
                assert(first_cd_dir(views.skip(i as int)) == Some(dir@));
                return Some(string_of(&dir));
            },
            None => {},
        }
        i += 1;
    }
    assert(views.skip(lines.len() as int).len() == 0);
    None
}

/// Whether a line, white space aside, is `wanted`.
fn has_line(lines: &Vec<Vec<char>>, wanted: &Vec<char>) -> (r: bool)
    ensures
        r == any_line_is(line_views(lines@), wanted@),
{
    let mut i: usize = 0;
    while i < lines.len()
        invariant
            i <= lines.len(),
            forall|j: int| 0 <= j < i ==> trim(#[trigger] line_views(lines@)[j]) != wanted@,
        decreases lines.len() - i,
    {
        let line = trimmed(&lines[i]);
        if same_chars(&line, wanted) {
            assert(trim(line_views(lines@)[i as int]) == wanted@);
            return true;
        }
        i += 1;
    }
    false
}

/// Tells what a hook file with these contents holds.
pub fn inspect_pre_commit(contents: &str) -> (report: HookReport)
    ensures
        match report.block {
            Ok(None) => block_search(lines_of(contents@)) == Ok::<
                Option<(int, int)>,
                BlockError,
            >(None),
            Ok(Some((start, end))) => block_search(lines_of(contents@)) == Ok::<
                Option<(int, int)>,
                BlockError,
            >(Some((start as int, end as int))),
            Err(e) => block_search(lines_of(contents@)) == Err::<Option<(int, int)>, BlockError>(
                e,
            ),
        },
        report.runs_cargo_fmt == any_line_is(lines_of(contents@), CARGO_FMT_LINE@),
        match report.cd_dir {
            Some(dir) => first_cd_dir(lines_of(contents@)) == Some(dir@),
            None => first_cd_dir(lines_of(contents@)).is_none(),
        },
        report.line_count == lines_of(contents@).len(),
        report.has_shebang == has_shebang(contents@),
{
    let chars = chars_of(contents);
    let lines = split_lines(&chars);
    let block = find_block(&lines);
    let runs_cargo_fmt = has_line(&lines, &chars_of(CARGO_FMT_LINE));
    let cd_dir = parse_cd_dir(contents);
    let has_shebang = chars.len() >= 2 && chars[0] == '#' && chars[1] == '!';
    HookReport { block, runs_cargo_fmt, cd_dir, line_count: lines.len(), has_shebang }
}

/// What the names of the backups of a hook file begin with.
pub open spec fn backup_prefix_text(hook_file_name: Seq<char>) -> Seq<char> {
    hook_file_name + BACKUP_SUFFIX@
}

/// The backups of the hook file `hook_file_name` among the names in its
/// directory: those that begin with the name and `.bak`, in rising order.
pub fn hook_backups(file_names: &Vec<String>, hook_file_name: &str) -> (backups: Vec<String>)
    ensures
        names_rising(name_views(backups@)),
        forall|n: Seq<char>|
            name_views(backups@).contains(n) <==> name_views(file_names@).contains(n)
                && starts_with(n, backup_prefix_text(hook_file_name@)),
{
    let mut prefix = chars_of(hook_file_name);
    let mut suffix = chars_of(BACKUP_SUFFIX);
    prefix.append(&mut suffix);
    let names = names_as_chars(file_names);
    let ghost given = line_views(names@);
    let mut found: Vec<Vec<char>> = Vec::new();
    let mut i: usize = 0;
    assert(given.take(0) =~= Seq::empty());
    while i < names.len()
        invariant
            i <= names.len(),
            given == line_views(names@),
            prefix@ == backup_prefix_text(hook_file_name@),
            line_views(found@) == with_prefix(given.take(i as int), prefix@),
        decreases names.len() - i,
    {
        let ghost before = line_views(found@);
        proof {
            assert(given.take(i + 1).drop_last() == given.take(i as int));
            assert(given.take(i + 1).last() == given[i as int]);
        }
        if has_prefix(&names[i], &prefix) {
            found.push(crate::lines::copy_chars(&names[i]));
            assert(line_views(found@) =~= before.push(given[i as int]));
        }
        i += 1;
    }
    assert(given.take(names.len() as int) == given);
    let sorted = sort_names(&found);
    let backups = chars_as_names(&sorted, 0, sorted.len());
    proof {
        assert(sorted@.len() == line_views(sorted@).len());
        assert(line_views(sorted@).subrange(0, sorted@.len() as int) =~= line_views(sorted@));
        assert(name_views(backups@) == line_views(sorted@));
        assert(given == name_views(file_names@));
        assert forall|n: Seq<char>|
            name_views(backups@).contains(n) <==> name_views(file_names@).contains(n)
                && starts_with(n, backup_prefix_text(hook_file_name@)) by {
            lemma_with_prefix_holds(given, prefix@, n);
            assert(line_views(sorted@).contains(n) <==> line_views(found@).contains(n));
        }
    }
    backups
}

/// The manifest directory for the report, and the line that shows it;
/// neither where no directory was chosen.
pub fn resolve_manifest_dir_for_status(choice: Result<ManifestChoice, ManifestError>) -> (r: (
    Option<FsPath>,
    Option<String>,
))
    ensures
        match choice {
            Ok(ManifestChoice::Resolved { dir }) => {
                &&& r.0 == Some(dir)
                &&& r.1.is_some()
                &&& r.1.unwrap()@ == MANIFEST_DIR_NOTE@ + text_of_path(dir@)
            },
            _ => r.0.is_none() && r.1.is_none(),
        },
{
    match choice {
        Ok(ManifestChoice::Resolved { dir }) => {
            let mut note = chars_of(MANIFEST_DIR_NOTE);
            let mut text = chars_of(dir.display().as_str());
            note.append(&mut text);
            let line = string_of(&note);
            (Some(dir), Some(line))
        },
        _ => (None, None),
    }
}

} // verus!

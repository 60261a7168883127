//! A bounded search below a directory for a file with one of some names,
//! or with one of some extensions. Like every walk of the library it
//! reads nothing itself.

use vstd::prelude::*;
use crate::lines::{copy_range, line_views};
use crate::names::{holds_name, str_views};
use crate::paths::{FsPath, PathView};
use crate::scan::{after_listing, PendingDir, ScanEntry, ScanView, TreeScan};
use crate::text::chars_of;

verus! {

/// The names of directories that a search for files never enters.
pub open spec fn search_skip_names() -> Seq<Seq<char>> {
    seq![
        ".git"@,
        "node_modules"@,
        "target"@,
        "dist"@,
        "build"@,
        ".venv"@,
        "__pycache__"@,
    ]
}

/// The names of directories that a search for files never enters.
pub fn search_skip_list() -> (names: Vec<Vec<char>>)
    ensures
        line_views(names@) == search_skip_names(),
{
    let names = vec![
        chars_of(".git"),
        chars_of("node_modules"),
        chars_of("target"),
        chars_of("dist"),
        chars_of("build"),
        chars_of(".venv"),
        chars_of("__pycache__"),
    ];
    assert(line_views(names@) =~= search_skip_names());
    names
}

/// The letter in upper case, where `c` is one of the letters a to z;
/// else `c` itself.
pub open spec fn ascii_upper(c: char) -> char {
    if 'a' <= c <= 'z' {
        ((c as int) - 32) as char
    } else {
        c
    }
}

/// Whether two texts are equal but for the case of the letters a to z.
pub open spec fn same_ignoring_case(a: Seq<char>, b: Seq<char>) -> bool {
    a.len() == b.len() && forall|i: int|
        0 <= i < a.len() ==> ascii_upper(#[trigger] a[i]) == ascii_upper(b[i])
}

/// The index of the last dot of a name, or -1 where it has none.
pub open spec fn last_dot(name: Seq<char>) -> int
    decreases name.len(),
{
    if name.len() == 0 {
        -1
    } else if name.last() == '.' {
        name.len() - 1
    } else {
        last_dot(name.drop_last())
    }
}

/// The extension of a file name: what follows its last dot. A name
/// without a dot, or with its only dot at the start, has none.
pub open spec fn extension_of(name: Seq<char>) -> Option<Seq<char>> {
    let dot = last_dot(name);
    if dot <= 0 {
        None
    } else {
        Some(name.skip(dot + 1))
    }
}

/// Whether one of `wanted` equals `text` but for the case of letters.
pub open spec fn any_same_ignoring_case(wanted: Seq<Seq<char>>, text: Seq<char>) -> bool {
    exists|i: int| 0 <= i < wanted.len() && same_ignoring_case(text, #[trigger] wanted[i])
}

/// Whether the entry is a file that the search looks for.
pub open spec fn is_wanted(by_extension: bool, wanted: Seq<Seq<char>>, entry: ScanEntry) -> bool {
    &&& entry.is_file
    &&& entry.name.is_some()
    &&& if by_extension {
        match extension_of(entry.name.unwrap()@) {
            Some(extension) => any_same_ignoring_case(wanted, extension),
            None => false,
        }
    } else {
        wanted.contains(entry.name.unwrap()@)
    }
}

/// How many of `count` entries are looked at before the count of the walk
/// is used up.
pub open spec fn entries_in_budget(scan: ScanView, count: nat) -> nat {
    if scan.visited >= scan.max_entries {
        0
    } else if count <= scan.max_entries - scan.visited {
        count
    } else {
        (scan.max_entries - scan.visited) as nat
    }
}

/// The depth bound of the walk that lists the directories down to
/// `max_dir_depth` levels below the root: one more, as far as numbers go.
pub open spec fn listing_depth(max_dir_depth: usize) -> usize {
    if max_dir_depth < usize::MAX {
        (max_dir_depth + 1) as usize
    } else {
        usize::MAX
    }
}

/// A search for a file.
pub struct FileSearch {
    /// The walk through the tree.
    pub scan: TreeScan,
    /// Whether files are looked for by extension, not by name.
    pub by_extension: bool,
    /// The names or extensions looked for.
    pub wanted: Vec<Vec<char>>,
    /// Whether a file was found.
    pub found: bool,
}

/// What a search for a file is to the contracts.
pub struct FileSearchView {
    /// The walk through the tree.
    pub scan: ScanView,
    /// Whether files are looked for by extension, not by name.
    pub by_extension: bool,
    /// The names or extensions looked for.
    pub wanted: Seq<Seq<char>>,
    /// Whether a file was found.
    pub found: bool,
}

impl View for FileSearch {
    type V = FileSearchView;

    open spec fn view(&self) -> FileSearchView {
        FileSearchView {
            scan: self.scan@,
            by_extension: self.by_extension,
            wanted: line_views(self.wanted@),
            found: self.found,
        }
    }
}

/// The search after a directory was listed. A search that has found its
/// file stays as it is, and so does one that is told of a directory at
/// the depth bound. Else the file is found where one of the entries that
/// are looked at is wanted, and the walk goes on with the directories
/// among the entries.
pub open spec fn after_search_listing(
    search: FileSearchView,
    parent: PathView,
    depth: nat,
    entries: Seq<ScanEntry>,
) -> FileSearchView {
    if search.found || depth >= search.scan.max_depth {
        search
    } else {
        FileSearchView {
            found: exists|i: int|
                0 <= i < entries_in_budget(search.scan, entries.len()) && is_wanted(
                    search.by_extension,
                    search.wanted,
                    #[trigger] entries[i],
                ),
            scan: after_listing(search.scan, parent, depth, entries),
            ..search
        }
    }
}

/// The letter in upper case, where `c` is one of the letters a to z.
fn to_ascii_upper(c: char) -> (r: char)
    ensures
        r == ascii_upper(c),
{
    if 'a' <= c && c <= 'z' {
        let code: u8 = c as u8;
        (code - 32) as char
    } else {
        c
    }
}

/// Whether two texts are equal but for the case of the letters a to z.
pub fn equals_ignoring_case(a: &Vec<char>, b: &Vec<char>) -> (r: bool)
    ensures
        r == same_ignoring_case(a@, b@),
{
    if a.len() != b.len() {
        return false;
    }
    let mut i: usize = 0;
    while i < a.len()
        invariant
            i <= a.len(),
            a.len() == b.len(),
            forall|j: int| 0 <= j < i ==> ascii_upper(#[trigger] a@[j]) == ascii_upper(b@[j]),
        decreases a.len() - i,
    {
        if to_ascii_upper(a[i]) != to_ascii_upper(b[i]) {
            return false;
        }
        i += 1;
    }
    true
}

/// The extension of a file name.
pub fn file_extension(name: &Vec<char>) -> (r: Option<Vec<char>>)
    ensures
        match r {
            Some(extension) => extension_of(name@) == Some(extension@),
            None => extension_of(name@).is_none(),
        },
{
    let mut i: usize = name.len();
    assert(name@.take(i as int) == name@);
    while i > 0 && name[i - 1] != '.'
        invariant
            i <= name.len(),
            last_dot(name@) == last_dot(name@.take(i as int)),
        decreases i,
    {
        assert(name@.take(i as int).drop_last() == name@.take(i - 1));
        i -= 1;
    }
    if i <= 1 {
        proof {
            if i == 1 {
                assert(name@.take(1).last() == name@[0]);
            }
        }
        return None;
    }
    assert(name@.take(i as int).last() == name@[i - 1]);
    let extension = copy_range(name, i, name.len());
    assert(extension@ == name@.skip(i as int));
    Some(extension)
}

/// Whether one of `wanted` equals `text` but for the case of letters.
fn any_equals_ignoring_case(wanted: &Vec<Vec<char>>, text: &Vec<char>) -> (r: bool)
    ensures
        r == any_same_ignoring_case(line_views(wanted@), text@),
{
    let mut i: usize = 0;
    while i < wanted.len()
        invariant
            i <= wanted.len(),
            forall|j: int| 0 <= j < i ==> !same_ignoring_case(text@, #[trigger] line_views(wanted@)[j]),
        decreases wanted.len() - i,
    {
        if equals_ignoring_case(text, &wanted[i]) {
            assert(same_ignoring_case(text@, line_views(wanted@)[i as int]));
            return true;
        }
        i += 1;
    }
    false
}

impl FileSearch {
    /// A search below `root` for a file with one of the names or, with
    /// `by_extension`, one of the extensions in `wanted`. Directories down
    /// to `max_dir_depth` levels below the root are listed.
    pub fn new(
        root: FsPath,
        wanted: Vec<&'static str>,
        by_extension: bool,
        max_dir_depth: usize,
        max_entries: usize,
    ) -> (search: FileSearch)
        ensures
            search@ == (FileSearchView {
                scan: ScanView {
                    max_depth: listing_depth(max_dir_depth) as nat,
                    max_entries: max_entries as nat,
                    skip_names: search_skip_names(),
                    pending: seq![(root@, 0nat)],
                    visited: 0,
                },
                by_extension,
                wanted: str_views(wanted@),
                found: false,
            }),
    {
        let max_depth = if max_dir_depth < usize::MAX {
            max_dir_depth + 1
        } else {
            usize::MAX
        };
        let scan = TreeScan::new(root, max_depth, max_entries, search_skip_list());
        let mut names: Vec<Vec<char>> = Vec::new();
        let mut i: usize = 0;
        assert(str_views(wanted@).take(0) =~= Seq::empty());
        while i < wanted.len()
            invariant
                i <= wanted.len(),
                line_views(names@) == str_views(wanted@).take(i as int),
            decreases wanted.len() - i,
        {
            let ghost before = line_views(names@);
            let name = chars_of(wanted[i]);
            names.push(name);
            assert(line_views(names@) =~= before.push(wanted@[i as int]@));
            assert(str_views(wanted@).take(i + 1) =~= str_views(
                wanted@,
            ).take(i as int).push(wanted@[i as int]@));
            i += 1;
        }
        assert(str_views(wanted@).take(wanted.len() as int)
            == str_views(wanted@));
        FileSearch { scan, by_extension, wanted: names, found: false }
    }

    /// Takes the next directory to list; none when the file was found or
    /// the walk is over.
    pub fn next_directory(&mut self) -> (next: Option<PendingDir>)
        ensures
            final(self)@.found == old(self)@.found,
            final(self)@.by_extension == old(self)@.by_extension,
            final(self)@.wanted == old(self)@.wanted,
            old(self)@.found ==> next.is_none() && final(self)@ == old(self)@,
            match next {
                Some(dir) => {
                    &&& !old(self)@.found
                    &&& old(self)@.scan.visited < old(self)@.scan.max_entries
                    &&& old(self)@.scan.pending.len() > 0
                    &&& (dir.dir@, dir.depth as nat) == old(self)@.scan.pending[0]
                    &&& final(self)@.scan == (ScanView {
                        pending: old(self)@.scan.pending.skip(1),
                        visited: old(self)@.scan.visited + 1,
                        ..old(self)@.scan
                    })
                },
                None => {
                    &&& old(self)@.found || old(self)@.scan.visited >= old(self)@.scan.max_entries
                        || old(self)@.scan.pending.len() == 0
                    &&& final(self)@.scan == old(self)@.scan
                },
            },
    {
        if self.found {
            return None;
        }
        self.scan.next_directory()
    }

    /// Whether the entry is a file that the search looks for.
    pub fn wants(&self, entry: &ScanEntry) -> (r: bool)
        ensures
            r == is_wanted(self@.by_extension, self@.wanted, *entry),
    {
        if !entry.is_file {
            return false;
        }
        match &entry.name {
            None => false,
            Some(name) => {
                let chars = chars_of(name.as_str());
                if self.by_extension {
                    match file_extension(&chars) {
                        Some(extension) => any_equals_ignoring_case(&self.wanted, &extension),
                        None => false,
                    }
                } else {
                    holds_name(&self.wanted, &chars)
                }
            },
        }
    }

    /// Takes the entries of the directory `parent`, in the order in which
    /// they were read.
    pub fn offer_entries(&mut self, parent: &PendingDir, entries: &Vec<ScanEntry>)
        ensures
            final(self)@ == after_search_listing(
                old(self)@,
                parent.dir@,
                parent.depth as nat,
                entries@,
            ),
    {
        if self.found || parent.depth >= self.scan.max_depth {
            return ;
        }
        let budget: usize = if self.scan.visited >= self.scan.max_entries {
            0
        } else if entries.len() <= self.scan.max_entries - self.scan.visited {
            entries.len()
        } else {
            self.scan.max_entries - self.scan.visited
        };
        let mut hit = false;
        let mut i: usize = 0;
        while i < budget
            invariant
                i <= budget <= entries.len(),
                hit == exists|j: int|
                    0 <= j < i && is_wanted(self@.by_extension, self@.wanted, #[trigger] entries@[j]),
            decreases budget - i,
        {
            let here = self.wants(&entries[i]);
            proof {
                if here {
                    assert(is_wanted(self@.by_extension, self@.wanted, entries@[i as int]));
                }
            }
            hit = hit || here;
            i += 1;
        }
        self.found = hit;
        self.scan.offer_entries(parent, entries);
    }

    /// Whether a file was found.
    pub fn has_found(&self) -> (r: bool)
        ensures
            r == self@.found,
    {
        self.found
    }
}

/// Starts a search below `repo_root` for a regular file with one of
/// `names`.
pub fn has_any_file_named_bounded(
    repo_root: FsPath,
    names: Vec<&'static str>,
    max_dir_depth: usize,
    max_entries: usize,
) -> (search: FileSearch)
    ensures
        search@ == (FileSearchView {
            scan: ScanView {
                max_depth: listing_depth(max_dir_depth) as nat,
                max_entries: max_entries as nat,
                skip_names: search_skip_names(),
                pending: seq![(repo_root@, 0nat)],
                visited: 0,
            },
            by_extension: false,
            wanted: str_views(names@),
            found: false,
        }),
{
    FileSearch::new(repo_root, names, false, max_dir_depth, max_entries)
}

/// Starts a search below `repo_root` for a regular file with one of the
/// extensions `exts`, whatever the case of its letters.
pub fn has_any_file_with_ext_bounded(
    repo_root: FsPath,
    exts: Vec<&'static str>,
    max_dir_depth: usize,
    max_entries: usize,
) -> (search: FileSearch)
    ensures
        search@ == (FileSearchView {
            scan: ScanView {
                max_depth: listing_depth(max_dir_depth) as nat,
                max_entries: max_entries as nat,
                skip_names: search_skip_names(),
                pending: seq![(repo_root@, 0nat)],
                visited: 0,
            },
            by_extension: true,
            wanted: str_views(exts@),
            found: false,
        }),
{
    FileSearch::new(repo_root, exts, true, max_dir_depth, max_entries)
}

} // verus!

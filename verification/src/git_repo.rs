//! Finding git repositories: the repository that encloses a directory, and
//! the repositories below a directory.
//!
//! A directory is the root of a repository where it holds a `.git` that
//! is a directory, or a `.git` file that points to the real git directory
//! (a linked working tree). The library does not read the disk: it is told
//! what stands at `.git`, and decides.

use vstd::prelude::*;
use crate::lines::{copy_range, line_views};
use crate::order::{is_rising_order, key_less, key_views, picked, rising_order};
use crate::paths::{
    ancestor, joined, lemma_path_key_tells_paths, parent_of, path_before, path_key, path_of_text,
    FsPath, PathView,
};
use crate::scan::{after_listing, PendingDir, ScanEntry, ScanView, TreeScan};
use crate::seqs::starts_with;
use crate::text::{chars_of, has_prefix, trim, trimmed};
use crate::types::ErrorKind;

verus! {

/// The name of the git directory, or of the file that points to it.
pub const DOT_GIT: &'static str = ".git";

/// What a `.git` file begins with, before the path of the git directory.
pub const GITDIR_PREFIX: &'static str = "gitdir:";

/// How many directories and entries a search for repositories visits at
/// most, where the caller names no other number.
pub const MAX_SCAN_ENTRIES: usize = 200_000;

/// What stands at `.git` in a directory.
#[derive(Clone, Debug, PartialEq, Eq)]
pub enum DotGit {
    /// Nothing, or something that is neither a directory nor a file.
    Missing,
    /// A directory.
    Directory,
    /// A file with these contents.
    File { contents: String },
}

/// Why a `.git` file does not lead to a git directory.
#[derive(Clone, Copy, Debug, PartialEq, Eq, Structural)]
pub enum GitDirError {
    /// The file does not begin with `gitdir:`.
    UnsupportedFormat,
    /// No path follows `gitdir:`.
    EmptyGitDir,
    /// The path is relative and the `.git` file has no directory above it.
    NoParentDirectory,
    /// The git directory that was resolved is no directory on the disk.
    MissingGitDir,
}

impl GitDirError {
    /// The kind of this error: a git directory that is not there is
    /// `NotFound`, a `.git` file that cannot be used is `Malformed`.
    pub fn kind(&self) -> (k: ErrorKind)
        ensures
            k == match *self {
                GitDirError::MissingGitDir => ErrorKind::NotFound,
                _ => ErrorKind::Malformed,
            },
    {
        match self {
            GitDirError::MissingGitDir => ErrorKind::NotFound,
            _ => ErrorKind::Malformed,
        }
    }

    /// The sentence shown to a person for this error, before the path
    /// that it is about.
    pub fn message(&self) -> (m: &'static str)
        ensures
            m@ == match *self {
                GitDirError::UnsupportedFormat => "Unsupported .git file format at"@,
                GitDirError::EmptyGitDir => "Invalid gitdir in .git file at"@,
                GitDirError::NoParentDirectory => "Invalid .git path:"@,
                GitDirError::MissingGitDir => "Git directory does not exist:"@,
            },
    {
        match self {
            GitDirError::UnsupportedFormat => "Unsupported .git file format at",
            GitDirError::EmptyGitDir => "Invalid gitdir in .git file at",
            GitDirError::NoParentDirectory => "Invalid .git path:",
            GitDirError::MissingGitDir => "Git directory does not exist:",
        }
    }
}

/// A repository: its root and its git directory.
#[derive(Clone, Debug, PartialEq, Eq)]
pub struct RepositoryLocation {
    /// The directory that holds `.git`.
    pub root: FsPath,
    /// The git directory: `root/.git`, or for a linked working tree the
    /// directory that the `.git` file points to.
    pub metadata_dir: FsPath,
}

impl View for RepositoryLocation {
    type V = (PathView, PathView);

    open spec fn view(&self) -> (PathView, PathView) {
        (self.root@, self.metadata_dir@)
    }
}

/// The text of the path in a `.git` file: what follows `gitdir:`, with the
/// white space around the contents and around the path taken off.
pub open spec fn gitdir_text(contents: Seq<char>) -> Result<Seq<char>, GitDirError> {
    let trimmed = trim(contents);
    if !starts_with(trimmed, GITDIR_PREFIX@) {
        Err(GitDirError::UnsupportedFormat)
    } else {
        let raw = trim(trimmed.skip(GITDIR_PREFIX@.len() as int));
        if raw.len() == 0 {
            Err(GitDirError::EmptyGitDir)
        } else {
            Ok(raw)
        }
    }
}

/// The git directory that a `.git` file points to. A path from the root
/// stands for itself; any other path starts at the directory that holds
/// the `.git` file.
pub open spec fn gitdir_of_file(dot_git_file: PathView, contents: Seq<char>) -> Result<
    PathView,
    GitDirError,
> {
    match gitdir_text(contents) {
        Err(e) => Err(e),
        Ok(raw) => {
            let path = path_of_text(raw);
            if path.absolute {
                Ok(path)
            } else {
                match parent_of(dot_git_file) {
                    None => Err(GitDirError::NoParentDirectory),
                    Some(parent) => Ok(joined(parent, path)),
                }
            }
        },
    }
}

/// `dir` followed by `.git`.
pub open spec fn dot_git_path(dir: PathView) -> PathView {
    PathView { absolute: dir.absolute, names: dir.names.push(DOT_GIT@) }
}

/// The git directory of the repository with root `repo_root`, or none
/// where `repo_root` is no root of a repository.
pub open spec fn git_dir_of(repo_root: PathView, dot_git: DotGit) -> Result<
    Option<PathView>,
    GitDirError,
> {
    match dot_git {
        DotGit::Missing => Ok(None),
        DotGit::Directory => Ok(Some(dot_git_path(repo_root))),
        DotGit::File { contents } => match gitdir_of_file(dot_git_path(repo_root), contents@) {
            Ok(dir) => Ok(Some(dir)),
            Err(e) => Err(e),
        },
    }
}

/// The nearest repository at or above `start`, looking from the level
/// `from` upward. `probes[i]` is what stands at `.git` in the directory
/// `i` levels above `start`. The first level with a `.git` decides: it is
/// the repository, or the error of its `.git` file. Levels without a
/// `.git`, and levels that `probes` does not reach, are passed over.
pub open spec fn nearest_repo(start: PathView, probes: Seq<DotGit>, from: nat) -> Result<
    Option<(PathView, PathView)>,
    GitDirError,
>
    decreases probes.len() - from,
{
    if from >= probes.len() || from > start.names.len() {
        Ok(None)
    } else {
        match git_dir_of(ancestor(start, from), probes[from as int]) {
            Err(e) => Err(e),
            Ok(Some(git_dir)) => Ok(Some((ancestor(start, from), git_dir))),
            Ok(None) => nearest_repo(start, probes, from + 1),
        }
    }
}

/// The path at which the `.git` of the directory `dir` stands.
pub fn dot_git_file(dir: &FsPath) -> (path: FsPath)
    ensures
        path@ == dot_git_path(dir@),
{
    dir.child(DOT_GIT)
}

/// Reads the path of the git directory out of the contents of a `.git`
/// file, and resolves a relative path against the directory that holds
/// the file.
pub fn parse_gitdir_file(dot_git_file: &FsPath, contents: &str) -> (r: Result<FsPath, GitDirError>)
    ensures
        match r {
            Ok(dir) => gitdir_of_file(dot_git_file@, contents@) == Ok::<PathView, GitDirError>(
                dir@,
            ),
            Err(e) => gitdir_of_file(dot_git_file@, contents@) == Err::<PathView, GitDirError>(e),
        },
{
    let all = trimmed(&chars_of(contents));
    let prefix = chars_of(GITDIR_PREFIX);
    if !has_prefix(&all, &prefix) {
        return Err(GitDirError::UnsupportedFormat);
    }
    let rest = copy_range(&all, prefix.len(), all.len());
    assert(rest@ == all@.skip(prefix@.len() as int));
    let raw = trimmed(&rest);
    if raw.len() == 0 {
        return Err(GitDirError::EmptyGitDir);
    }
    let path = FsPath::parse_chars(&raw);
    if path.absolute {
        return Ok(path);
    }
    match dot_git_file.parent() {
        None => Err(GitDirError::NoParentDirectory),
        Some(parent) => Ok(parent.join(&path)),
    }
}

/// Tells whether `repo_root` is the root of a repository, from what stands
/// at its `.git`, and returns the git directory: `repo_root/.git` where
/// that is a directory, and where it is a file the directory it points to.
pub fn git_dir_from_repo_root(repo_root: &FsPath, dot_git: &DotGit) -> (r: Result<
    Option<FsPath>,
    GitDirError,
>)
    ensures
        match r {
            Ok(Some(dir)) => git_dir_of(repo_root@, *dot_git) == Ok::<
                Option<PathView>,
                GitDirError,
            >(Some(dir@)),
            Ok(None) => git_dir_of(repo_root@, *dot_git) == Ok::<Option<PathView>, GitDirError>(
                None,
            ),
            Err(e) => git_dir_of(repo_root@, *dot_git) == Err::<Option<PathView>, GitDirError>(e),
        },
{
    match dot_git {
        DotGit::Missing => Ok(None),
        DotGit::Directory => Ok(Some(dot_git_file(repo_root))),
        DotGit::File { contents } => {
            let file = dot_git_file(repo_root);
            match parse_gitdir_file(&file, contents.as_str()) {
                Ok(dir) => Ok(Some(dir)),
                Err(e) => Err(e),
            }
        },
    }
}

/// Hands a repository on only where its git directory is a directory on
/// the disk: a `.git` file may point to a place where nothing is.
pub fn ensure_git_dir_exists(repo: RepositoryLocation, metadata_dir_is_directory: bool) -> (r:
    Result<RepositoryLocation, GitDirError>)
    ensures
        r == if metadata_dir_is_directory {
            Ok::<RepositoryLocation, GitDirError>(repo)
        } else {
            Err(GitDirError::MissingGitDir)
        },
{
    if metadata_dir_is_directory {
        Ok(repo)
    } else {
        Err(GitDirError::MissingGitDir)
    }
}

/// Finds the nearest repository at or above `start`. `probes[i]` tells
/// what stands at `.git` in the directory `i` levels above `start`; the
/// caller may stop probing at the first level that has one. No repository
/// is a regular outcome, not an error.
pub fn find_git_repo(start: &FsPath, probes: &Vec<DotGit>) -> (r: Result<
    Option<RepositoryLocation>,
    GitDirError,
>)
    ensures
        match r {
            Ok(Some(repo)) => nearest_repo(start@, probes@, 0) == Ok::<
                Option<(PathView, PathView)>,
                GitDirError,
            >(Some(repo@)),
            Ok(None) => nearest_repo(start@, probes@, 0) == Ok::<
                Option<(PathView, PathView)>,
                GitDirError,
            >(None),
            Err(e) => nearest_repo(start@, probes@, 0) == Err::<
                Option<(PathView, PathView)>,
                GitDirError,
            >(e),
        },
{
    let mut current = start.copy();
    let mut level: usize = 0;
    assert(start@.names.take(start@.names.len() as int) == start@.names);
    while level < probes.len()
        invariant
            level <= probes.len(),
            level <= start@.names.len(),
            current@ == ancestor(start@, level as nat),
            nearest_repo(start@, probes@, 0) == nearest_repo(start@, probes@, level as nat),
        decreases probes.len() - level,
    {
        match git_dir_from_repo_root(&current, &probes[level]) {
            Err(e) => {
                return Err(e);
            },
            Ok(Some(git_dir)) => {
                return Ok(Some(RepositoryLocation { root: current, metadata_dir: git_dir }));
            },
            Ok(None) => {},
        }
        match current.parent() {
            None => {
                assert(level == start@.names.len());
                return Ok(None);
            },
            Some(parent) => {
                assert(parent@ == ancestor(start@, (level + 1) as nat)) by {
                    assert(current@.names.drop_last() == start@.names.take(
                        start@.names.len() - (level + 1),
                    ));
                }
                current = parent;
            },
        }
        level += 1;
    }
    Ok(None)
}

/// The names of directories that a search for repositories never enters.
pub open spec fn repository_skip_names() -> Seq<Seq<char>> {
    seq![
        ".git"@,
        "node_modules"@,
        "target"@,
        "dist"@,
        "build"@,
        ".venv"@,
        "__pycache__"@,
        ".tox"@,
        ".idea"@,
        ".vscode"@,
    ]
}

/// The names of directories that a search for repositories never enters.
pub fn repository_skip_list() -> (names: Vec<Vec<char>>)
    ensures
        line_views(names@) == repository_skip_names(),
{
    let names = vec![
        chars_of(".git"),
        chars_of("node_modules"),
        chars_of("target"),
        chars_of("dist"),
        chars_of("build"),
        chars_of(".venv"),
        chars_of("__pycache__"),
        chars_of(".tox"),
        chars_of(".idea"),
        chars_of(".vscode"),
    ];
    assert(line_views(names@) =~= repository_skip_names());
    names
}

/// The views of the repositories found.
pub open spec fn repo_views(found: Seq<RepositoryLocation>) -> Seq<(PathView, PathView)> {
    Seq::new(found.len(), |i: int| found[i]@)
}

/// Whether a repository with this root was found.
pub open spec fn has_root(found: Seq<(PathView, PathView)>, root: PathView) -> bool {
    exists|i: int| 0 <= i < found.len() && (#[trigger] found[i]).0 == root
}

/// Whether no two of the repositories have the same root.
pub open spec fn distinct_roots(found: Seq<(PathView, PathView)>) -> bool {
    forall|i: int, j: int|
        0 <= i < j < found.len() ==> (#[trigger] found[i]).0 != (#[trigger] found[j]).0
}

/// Whether the repositories are listed in the order of their roots.
pub open spec fn roots_rising(found: Seq<(PathView, PathView)>) -> bool {
    forall|i: int, j: int|
        0 <= i < j < found.len() ==> path_before((#[trigger] found[i]).0, (#[trigger] found[j]).0)
}

/// A search for the repositories below a directory.
pub struct RepoScan {
    /// The walk through the tree.
    pub scan: TreeScan,
    /// The repositories found so far, in the order in which they were
    /// found.
    pub found: Vec<RepositoryLocation>,
}

/// What a search for repositories is to the contracts.
pub struct RepoScanView {
    /// The walk through the tree.
    pub scan: ScanView,
    /// The repositories found so far, in the order in which they were
    /// found.
    pub found: Seq<(PathView, PathView)>,
}

/// The search after it was told what stands at `.git` in `dir`. A
/// repository is noted, unless its root was noted before. An error of the
/// `.git` file changes nothing.
pub open spec fn after_probe(search: RepoScanView, dir: PathView, dot_git: DotGit)
    -> RepoScanView {
    match git_dir_of(dir, dot_git) {
        Ok(Some(git_dir)) => if has_root(search.found, dir) {
            search
        } else {
            RepoScanView { found: search.found.push((dir, git_dir)), ..search }
        },
        _ => search,
    }
}

/// Whether `repo` is the first of the repositories found that has its
/// root.
pub open spec fn is_first_with_root(found: Seq<(PathView, PathView)>, repo: (PathView, PathView))
    -> bool {
    exists|g: int|
        0 <= g < found.len() && #[trigger] found[g] == repo && forall|h: int|
            0 <= h < g ==> (#[trigger] found[h]).0 != repo.0
}

impl View for RepoScan {
    type V = RepoScanView;

    open spec fn view(&self) -> RepoScanView {
        RepoScanView { scan: self.scan@, found: repo_views(self.found@) }
    }
}

impl RepoScan {

    /// A search below `scan_root`, down to `max_depth` levels and over at
    /// most `max_entries` directories and entries, with nothing visited
    /// and nothing found yet.
    pub fn new(scan_root: FsPath, max_depth: usize, max_entries: usize) -> (search: RepoScan)
        ensures
            search@ == (RepoScanView {
                scan: ScanView {
                    max_depth: max_depth as nat,
                    max_entries: max_entries as nat,
                    skip_names: repository_skip_names(),
                    pending: seq![(scan_root@, 0nat)],
                    visited: 0,
                },
                found: Seq::empty(),
            }),
    {
        let scan = TreeScan::new(scan_root, max_depth, max_entries, repository_skip_list());
        let found: Vec<RepositoryLocation> = Vec::new();
        assert(repo_views(found@) =~= Seq::empty());
        RepoScan { scan, found }
    }

    /// Takes the next directory to look at; none when the search is over.
    /// The caller looks what stands at its `.git` and calls `record_probe`.
    pub fn next_directory(&mut self) -> (next: Option<PendingDir>)
        ensures
            final(self)@.found == old(self)@.found,
            match next {
                Some(dir) => {
                    &&& old(self)@.scan.visited < old(self)@.scan.max_entries
                    &&& old(self)@.scan.pending.len() > 0
                    &&& (dir.dir@, dir.depth as nat) == old(self)@.scan.pending[0]
                    &&& final(self)@.scan == (ScanView {
                        pending: old(self)@.scan.pending.skip(1),
                        visited: old(self)@.scan.visited + 1,
                        ..old(self)@.scan
                    })
                },
                None => {
                    &&& old(self)@.scan.visited >= old(self)@.scan.max_entries
                        || old(self)@.scan.pending.len() == 0
                    &&& final(self)@.scan == old(self)@.scan
                },
            },
    {
        self.scan.next_directory()
    }

    /// Takes what stands at `.git` in the directory `dir`. A repository is
    /// noted and not entered. For any other directory the answer tells
    /// whether its entries are wanted: they are above the depth bound. An
    /// unreadable `.git` file ends the search with its error.
    pub fn record_probe(&mut self, dir: &PendingDir, dot_git: &DotGit) -> (r: Result<
        bool,
        GitDirError,
    >)
        ensures
            final(self)@ == after_probe(old(self)@, dir.dir@, *dot_git),
            distinct_roots(old(self)@.found) ==> distinct_roots(final(self)@.found),
            match r {
                Ok(wants_entries) => match git_dir_of(dir.dir@, *dot_git) {
                    Ok(Some(_)) => !wants_entries,
                    Ok(None) => wants_entries == (dir.depth < old(self)@.scan.max_depth),
                    Err(_) => false,
                },
                Err(e) => git_dir_of(dir.dir@, *dot_git) == Err::<Option<PathView>, GitDirError>(
                    e,
                ),
            },
    {
        match git_dir_from_repo_root(&dir.dir, dot_git) {
            Err(e) => Err(e),
            Ok(None) => Ok(self.scan.descends_from(dir.depth)),
            Ok(Some(git_dir)) => {
                if !root_is_known(&self.found, &dir.dir) {
                    let ghost before = repo_views(self.found@);
                    let repo = RepositoryLocation { root: dir.dir.copy(), metadata_dir: git_dir };
                    self.found.push(repo);
                    proof {
                        let after = repo_views(self.found@);
                        assert(after =~= before.push((dir.dir@, git_dir@)));
                        if distinct_roots(before) {
                            assert forall|i: int, j: int| 0 <= i < j < after.len() implies (
                            #[trigger] after[i]).0 != (#[trigger] after[j]).0 by {
                                if j == before.len() {
                                    assert(before[i].0 != dir.dir@);
                                } else {
                                    assert(before[i].0 != before[j].0);
                                }
                            }
                        }
                    }
                }
                Ok(false)
            },
        }
    }

    /// Takes the entries of the directory `dir`, for which `record_probe`
    /// asked. The directories among them wait to be looked at in turn,
    /// within the bounds of the walk.
    pub fn offer_entries(&mut self, dir: &PendingDir, entries: &Vec<ScanEntry>)
        ensures
            final(self)@.found == old(self)@.found,
            final(self)@.scan == after_listing(
                old(self)@.scan,
                dir.dir@,
                dir.depth as nat,
                entries@,
            ),
    {
        self.scan.offer_entries(dir, entries);
    }

    /// The repositories found, in the order of their roots, each root
    /// once: of repositories with the same root the one found first.
    pub fn finish(self) -> (repos: Vec<RepositoryLocation>)
        ensures
            roots_rising(repo_views(repos@)),
            forall|repo: (PathView, PathView)|
                repo_views(repos@).contains(repo) <==> is_first_with_root(self@.found, repo),
    {
        let ghost given = repo_views(self.found@);
        let mut keys: Vec<Vec<Vec<char>>> = Vec::new();
        let mut i: usize = 0;
        while i < self.found.len()
            invariant
                i <= self.found.len(),
                given == repo_views(self.found@),
                keys.len() == i,
                forall|j: int|
                    0 <= j < i ==> line_views(#[trigger] keys@[j]@) == path_key(given[j].0),
            decreases self.found.len() - i,
        {
            let key = self.found[i].root.sort_key();
            keys.push(key);
            i += 1;
        }
        let order = rising_order(&keys);
        let ghost kv = key_views(keys@);
        assert forall|j: int| 0 <= j < given.len() implies #[trigger] kv[j] == path_key(
            given[j].0,
        ) by {
            assert(kv[j] == line_views(keys@[j]@));
        }
        let mut repos: Vec<RepositoryLocation> = Vec::new();
        let mut k: usize = 0;
        while k < order.len()
            invariant
                k <= order.len(),
                given == repo_views(self.found@),
                is_rising_order(kv, order@),
                kv.len() == self.found.len(),
                repos.len() == k,
                forall|j: int| 0 <= j < k ==> (#[trigger] repos@[j])@ == given[order@[j] as int],
            decreases order.len() - k,
        {
            assert(order@[k as int] < kv.len());
            let repo = &self.found[order[k]];
            repos.push(
                RepositoryLocation { root: repo.root.copy(), metadata_dir: repo.metadata_dir.copy() },
            );
            k += 1;
        }
        proof {
            let out = repo_views(repos@);
            assert forall|a: int| 0 <= a < out.len() implies #[trigger] out[a]
                == given[order@[a] as int] && order@[a] < given.len() by {
                assert(out[a] == repos@[a]@);
                assert(order@[a] < kv.len());
            }
            assert forall|a: int, b: int| 0 <= a < b < out.len() implies path_before(
                (#[trigger] out[a]).0,
                (#[trigger] out[b]).0,
            ) by {
                assert(key_less(picked(kv, order@)[a], picked(kv, order@)[b]));
                assert(kv[order@[a] as int] == path_key(given[order@[a] as int].0));
                assert(kv[order@[b] as int] == path_key(given[order@[b] as int].0));
            }
            assert forall|repo: (PathView, PathView)| out.contains(repo) <==> is_first_with_root(
                given,
                repo,
            ) by {
                if out.contains(repo) {
                    let a = choose|a: int| 0 <= a < out.len() && out[a] == repo;
                    let g = order@[a] as int;
                    assert(given[g] == repo);
                    assert forall|h: int| 0 <= h < g implies (#[trigger] given[h]).0 != repo.0 by {
                        assert(kv[h] != kv[order@[a] as int]);
                        assert(kv[h] == path_key(given[h].0));
                        assert(kv[g] == path_key(given[g].0));
                    }
                }
                if is_first_with_root(given, repo) {
                    let g = choose|g: int|
                        0 <= g < given.len() && #[trigger] given[g] == repo && forall|h: int|
                            0 <= h < g ==> (#[trigger] given[h]).0 != repo.0;
                    assert(kv[g] == path_key(given[g].0));
                    let a = choose|a: int| 0 <= a < order.len() && kv[order@[a] as int] == kv[g];
                    let h = order@[a] as int;
                    assert(h < kv.len());
                    assert(kv[h] == path_key(given[h].0));
                    lemma_path_key_tells_paths(given[h].0, given[g].0);
                    if h > g {
                        assert(kv[g] != kv[order@[a] as int]);
                    }
                    assert(h == g);
                    assert(out[a] == repo);
                }
            }
        }
        repos
    }
}

/// Why a search for repositories did not start.
#[derive(Clone, Copy, Debug, PartialEq, Eq, Structural)]
pub enum ScanError {
    /// The directory to search below is no directory.
    NotADirectory,
}

impl ScanError {
    /// The kind of this error.
    pub fn kind(&self) -> (k: ErrorKind)
        ensures
            k == ErrorKind::InvalidInput,
    {
        ErrorKind::InvalidInput
    }

    /// The sentence shown to a person for this error; the path of the
    /// directory is shown behind it.
    pub fn message(&self) -> (m: &'static str)
        ensures
            m@ == "Scan root is not a directory:"@,
    {
        "Scan root is not a directory:"
    }
}

/// Starts a search for the repositories below `scan_root`, down to
/// `max_depth` levels and over at most `max_entries` directories and
/// entries; the search may miss repositories that lie beyond these
/// bounds. A repository that is found is not entered: what lies inside it
/// is not reported. The caller runs the search: it takes directories with
/// `next_directory`, tells what stands at their `.git` with
/// `record_probe`, lists those that are asked for with `offer_entries`,
/// and takes the repositories with `finish`.
pub fn find_git_repos_under_dir(
    scan_root: FsPath,
    scan_root_is_dir: bool,
    max_depth: usize,
    max_entries: usize,
) -> (r: Result<RepoScan, ScanError>)
    ensures
        match r {
            Ok(search) => scan_root_is_dir && search@ == (RepoScanView {
                scan: ScanView {
                    max_depth: max_depth as nat,
                    max_entries: max_entries as nat,
                    skip_names: repository_skip_names(),
                    pending: seq![(scan_root@, 0nat)],
                    visited: 0,
                },
                found: Seq::empty(),
            }),
            Err(e) => !scan_root_is_dir && e == ScanError::NotADirectory,
        },
{
    if scan_root_is_dir {
        Ok(RepoScan::new(scan_root, max_depth, max_entries))
    } else {
        Err(ScanError::NotADirectory)
    }
}

/// Where no two repositories found have the same root, as it is in a
/// search that was run from its start, every repository found is the
/// first with its root: `finish` returns them all.
pub proof fn lemma_distinct_roots_are_all_first(
    found: Seq<(PathView, PathView)>,
    repo: (PathView, PathView),
)
    requires
        distinct_roots(found),
    ensures
        is_first_with_root(found, repo) <==> found.contains(repo),
{
    if found.contains(repo) {
        let g = choose|g: int| 0 <= g < found.len() && found[g] == repo;
        assert forall|h: int| 0 <= h < g implies (#[trigger] found[h]).0 != repo.0 by {
            assert(found[h].0 != found[g].0);
        }
        assert(is_first_with_root(found, repo));
    }
}

/// Whether a repository with the root `root` was found.
fn root_is_known(found: &Vec<RepositoryLocation>, root: &FsPath) -> (r: bool)
    ensures
        r == has_root(repo_views(found@), root@),
{
    let mut i: usize = 0;
    while i < found.len()
        invariant
            i <= found.len(),
            forall|j: int| 0 <= j < i ==> (#[trigger] repo_views(found@)[j]).0 != root@,
        decreases found.len() - i,
    {
        if found[i].root.same(root) {
            assert(repo_views(found@)[i as int].0 == root@);
            return true;
        }
        i += 1;
    }
    false
}

} // verus!

//! Choosing the directory of the build manifest that a hook works in.
//!
//! The order of the choice: a directory that the user named; else the
//! manifest directories from the working directory up to the root of the
//! repository; else those that a bounded search below the root finds. One
//! candidate is taken; more than one is a question to the user, or an
//! error where no question may be asked.

use vstd::prelude::*;
use crate::lines::line_views;
use crate::paths::{
    ancestor, holds_path, is_within, joined, path_views, paths_rising, sort_paths, FsPath, PathView,
};
use crate::scan::{after_listing, PendingDir, ScanEntry, ScanView, TreeScan};
use crate::text::chars_of;
use crate::types::{ErrorKind, ResolveHookOptions};
use crate::util::{relative_display, relative_text};

verus! {

/// The name of the manifest file.
pub const MANIFEST_FILE_NAME: &'static str = "Cargo.toml";

/// How deep below the root of the repository manifests are searched for.
pub const MANIFEST_SCAN_DEPTH: usize = 6;

/// How many directories and entries a search for manifests visits at most.
pub const MANIFEST_SCAN_ENTRIES: usize = 8_000;

/// Why no manifest directory was chosen.
#[derive(Clone, Copy, Debug, PartialEq, Eq, Structural)]
pub enum ManifestError {
    /// The directory that the user named lies outside the repository.
    OutsideRepository,
    /// The directory that the user named holds no manifest.
    ExplicitDirHasNoManifest,
    /// The repository holds no manifest that the search could find.
    NoManifestFound,
    /// There are several candidates and no question may be asked.
    MultipleManifests,
    /// The user picked a candidate that is not on the list.
    InvalidSelection,
}

impl ManifestError {
    /// The kind of this error.
    pub open spec fn kind_spec(self) -> ErrorKind {
        match self {
            ManifestError::OutsideRepository => ErrorKind::InvalidInput,
            ManifestError::ExplicitDirHasNoManifest => ErrorKind::NotFound,
            ManifestError::NoManifestFound => ErrorKind::NotFound,
            ManifestError::MultipleManifests => ErrorKind::Ambiguous,
            ManifestError::InvalidSelection => ErrorKind::InvalidInput,
        }
    }

    /// The kind of this error.
    pub fn kind(&self) -> (k: ErrorKind)
        ensures
            k == self.kind_spec(),
    {
        match self {
            ManifestError::OutsideRepository => ErrorKind::InvalidInput,
            ManifestError::ExplicitDirHasNoManifest => ErrorKind::NotFound,
            ManifestError::NoManifestFound => ErrorKind::NotFound,
            ManifestError::MultipleManifests => ErrorKind::Ambiguous,
            ManifestError::InvalidSelection => ErrorKind::InvalidInput,
        }
    }

    /// The sentence shown to a person for this error; where a path
    /// belongs to it, the path is shown behind the sentence.
    pub fn message(&self) -> (m: &'static str)
        ensures
            m@ == match *self {
                ManifestError::OutsideRepository => "Path is outside the repository:"@,
                ManifestError::ExplicitDirHasNoManifest =>
                    "--manifest-dir does not contain a Cargo.toml:"@,
                ManifestError::NoManifestFound => "No Cargo.toml found in git repository at"@,
                ManifestError::MultipleManifests =>
                    "Multiple Cargo.toml files found; re-run with --manifest-dir to choose one"@,
                ManifestError::InvalidSelection => "Invalid selection"@,
            },
    {
        match self {
            ManifestError::OutsideRepository => "Path is outside the repository:",
            ManifestError::ExplicitDirHasNoManifest =>
                "--manifest-dir does not contain a Cargo.toml:",
            ManifestError::NoManifestFound => "No Cargo.toml found in git repository at",
            ManifestError::MultipleManifests =>
                "Multiple Cargo.toml files found; re-run with --manifest-dir to choose one",
            ManifestError::InvalidSelection => "Invalid selection",
        }
    }
}

/// A manifest directory that the user named.
#[derive(Clone, Debug, PartialEq, Eq)]
pub struct ExplicitManifestDir {
    /// The directory as it was given: from the root, or relative to the
    /// root of the repository.
    pub dir: FsPath,
    /// Whether the manifest file is a regular file in that directory.
    pub has_manifest: bool,
}

/// What the choice of a manifest directory came to.
#[derive(Clone, Debug, PartialEq, Eq)]
pub enum ManifestChoice {
    /// This directory.
    Resolved { dir: FsPath },
    /// One of these candidates, which the user is to pick. The labels show
    /// the candidates relative to the root of the repository, in the same
    /// order.
    Ask { candidates: Vec<FsPath>, labels: Vec<String> },
}

/// The directory that the user named, resolved against the root of the
/// repository, where it lies within the repository and holds a manifest.
pub open spec fn explicit_manifest_dir(repo_root: PathView, dir: PathView, has_manifest: bool)
    -> Result<PathView, ManifestError> {
    let resolved = joined(repo_root, dir);
    if !is_within(resolved, repo_root) {
        Err(ManifestError::OutsideRepository)
    } else if has_manifest {
        Ok(resolved)
    } else {
        Err(ManifestError::ExplicitDirHasNoManifest)
    }
}

/// The directories from the one `from` levels above `cwd` upward, ending
/// with `repo_root`, or with the topmost directory where `repo_root` is
/// not met.
pub open spec fn upward_dirs(cwd: PathView, repo_root: PathView, from: nat) -> Seq<PathView>
    decreases cwd.names.len() - from,
{
    if from > cwd.names.len() {
        Seq::empty()
    } else {
        let dir = ancestor(cwd, from);
        if dir == repo_root || from == cwd.names.len() {
            seq![dir]
        } else {
            seq![dir] + upward_dirs(cwd, repo_root, from + 1)
        }
    }
}

/// Those of the directories for which `has_manifest` holds `true` at the
/// same index, in their order.
pub open spec fn manifests_among(dirs: Seq<PathView>, has_manifest: Seq<bool>) -> Seq<PathView>
    decreases dirs.len(),
{
    if dirs.len() == 0 {
        Seq::empty()
    } else {
        let before = manifests_among(dirs.drop_last(), has_manifest);
        if dirs.len() <= has_manifest.len() && has_manifest[dirs.len() - 1] {
            before.push(dirs.last())
        } else {
            before
        }
    }
}

/// Whether `sorted` lists the paths of `given` in order, each once.
pub open spec fn is_sorted_set(sorted: Seq<PathView>, given: Seq<PathView>) -> bool {
    &&& paths_rising(sorted)
    &&& forall|p: PathView| holds_path(sorted, p) <==> holds_path(given, p)
}

/// The candidates for the manifest directory: those found on the way up,
/// and only where there are none, those found by the search.
pub open spec fn manifest_candidates(upward: Seq<PathView>, scanned: Seq<PathView>) -> Seq<
    PathView,
> {
    if upward.len() > 0 {
        upward
    } else {
        scanned
    }
}

/// The path of the manifest file in the directory `dir`. A directory is
/// a manifest directory where a regular file stands at this path.
pub fn manifest_file(dir: &FsPath) -> (path: FsPath)
    ensures
        path@ == (PathView { absolute: dir@.absolute, names: dir@.names.push(MANIFEST_FILE_NAME@) }),
{
    dir.child(MANIFEST_FILE_NAME)
}

/// The path that the user gave, resolved against the root of the
/// repository unless it starts at the root of the file system.
pub fn normalize_path(repo_root: &FsPath, input: &FsPath) -> (path: FsPath)
    ensures
        path@ == joined(repo_root@, input@),
{
    repo_root.join(input)
}

/// Checks that `candidate` lies at or below `repo_root`, name by name.
/// Links are not followed: this is no security boundary.
pub fn ensure_is_within_repo(repo_root: &FsPath, candidate: &FsPath) -> (r: Result<
    (),
    ManifestError,
>)
    ensures
        r.is_ok() <==> is_within(candidate@, repo_root@),
        r.is_err() ==> r == Err::<(), ManifestError>(ManifestError::OutsideRepository),
{
    if candidate.is_within(repo_root) {
        Ok(())
    } else {
        Err(ManifestError::OutsideRepository)
    }
}

/// Resolves the manifest directory that the user named. `has_manifest`
/// tells whether the manifest file is a regular file in the directory
/// that `normalize_path` gives.
pub fn resolve_manifest_dir_from_cli(repo_root: &FsPath, manifest_dir: &FsPath, has_manifest: bool)
    -> (r: Result<FsPath, ManifestError>)
    ensures
        match r {
            Ok(dir) => explicit_manifest_dir(repo_root@, manifest_dir@, has_manifest) == Ok::<
                PathView,
                ManifestError,
            >(dir@),
            Err(e) => explicit_manifest_dir(repo_root@, manifest_dir@, has_manifest) == Err::<
                PathView,
                ManifestError,
            >(e),
        },
{
    let resolved = normalize_path(repo_root, manifest_dir);
    match ensure_is_within_repo(repo_root, &resolved) {
        Err(e) => {
            return Err(e);
        },
        Ok(_) => {},
    }
    if has_manifest {
        Ok(resolved)
    } else {
        Err(ManifestError::ExplicitDirHasNoManifest)
    }
}

/// The directories from `cwd` upward, `cwd` first, ending with
/// `repo_root`, or with the topmost directory where `repo_root` is not on
/// the way.
pub fn upward_directories(cwd: &FsPath, repo_root: &FsPath) -> (dirs: Vec<FsPath>)
    ensures
        path_views(dirs@) == upward_dirs(cwd@, repo_root@, 0),
        dirs.len() > 0,
{
    let mut dirs: Vec<FsPath> = Vec::new();
    let mut current = cwd.copy();
    let mut level: usize = 0;
    let total: usize = cwd.names.len();
    assert(cwd@.names.take(total as int) == cwd@.names);
    loop
        invariant_except_break
            level <= total,
            total == cwd@.names.len(),
            current@ == ancestor(cwd@, level as nat),
            path_views(dirs@) + upward_dirs(cwd@, repo_root@, level as nat) == upward_dirs(
                cwd@,
                repo_root@,
                0,
            ),
        ensures
            path_views(dirs@) == upward_dirs(cwd@, repo_root@, 0),
            dirs.len() > 0,
        decreases total - level,
    {
        let ghost before = path_views(dirs@);
        let at_root = current.same(repo_root);
        let parent = current.parent();
        dirs.push(current);
        assert(path_views(dirs@) =~= before.push(ancestor(cwd@, level as nat)));
        assert(before.push(ancestor(cwd@, level as nat)) =~= before + seq![
            ancestor(cwd@, level as nat),
        ]);
        if at_root {
            break ;
        }
        match parent {
            None => {
                assert(level == total);
                break ;
            },
            Some(up) => {
                assert(level < total);
                assert(up@ == ancestor(cwd@, (level + 1) as nat)) by {
                    assert(ancestor(cwd@, level as nat).names.drop_last() == cwd@.names.take(
                        total - (level + 1),
                    ));
                }
                assert(before + seq![ancestor(cwd@, level as nat)] + upward_dirs(
                    cwd@,
                    repo_root@,
                    (level + 1) as nat,
                ) =~= before + upward_dirs(cwd@, repo_root@, level as nat));
                current = up;
                level += 1;
            },
        }
    }
    dirs
}

/// The manifest directories on the way from `cwd` up to `repo_root`, the
/// nearest first. `has_manifest[i]` tells whether the manifest file is a
/// regular file in the directory `i` levels above `cwd`, as
/// `upward_directories` lists them; a level that it does not reach counts
/// as without manifest.
pub fn find_cargo_manifests_upwards(cwd: &FsPath, repo_root: &FsPath, has_manifest: &Vec<bool>)
    -> (dirs: Vec<FsPath>)
    ensures
        path_views(dirs@) == manifests_among(upward_dirs(cwd@, repo_root@, 0), has_manifest@),
{
    let all = upward_directories(cwd, repo_root);
    let ghost views = path_views(all@);
    let mut dirs: Vec<FsPath> = Vec::new();
    let mut i: usize = 0;
    assert(views.take(0) =~= Seq::empty());
    assert(path_views(dirs@) =~= Seq::empty());
    while i < all.len()
        invariant
            i <= all.len(),
            views == path_views(all@),
            path_views(dirs@) == manifests_among(views.take(i as int), has_manifest@),
        decreases all.len() - i,
    {
        let ghost before = path_views(dirs@);
        proof {
            assert(views.take(i + 1).drop_last() == views.take(i as int));
            assert(views.take(i + 1).last() == views[i as int]);
        }
        if i < has_manifest.len() && has_manifest[i] {
            let dir = all[i].copy();
            dirs.push(dir);
            assert(path_views(dirs@) =~= before.push(views[i as int]));
        }
        i += 1;
    }
    assert(views.take(all.len() as int) == views);
    dirs
}

/// The names of directories that a search for manifests never enters.
pub open spec fn manifest_skip_names() -> Seq<Seq<char>> {
    seq![".git"@, "target"@, "node_modules"@]
}

/// The names of directories that a search for manifests never enters.
pub fn manifest_skip_list() -> (names: Vec<Vec<char>>)
    ensures
        line_views(names@) == manifest_skip_names(),
{
    let names = vec![chars_of(".git"), chars_of("target"), chars_of("node_modules")];
    assert(line_views(names@) =~= manifest_skip_names());
    names
}

/// A search for manifest directories below the root of a repository.
pub struct ManifestScan {
    /// The walk through the tree.
    pub scan: TreeScan,
    /// The manifest directories found so far, in the order in which they
    /// were found.
    pub found: Vec<FsPath>,
}

/// What a search for manifests is to the contracts.
pub struct ManifestScanView {
    /// The walk through the tree.
    pub scan: ScanView,
    /// The manifest directories found so far.
    pub found: Seq<PathView>,
}

impl View for ManifestScan {
    type V = ManifestScanView;

    open spec fn view(&self) -> ManifestScanView {
        ManifestScanView { scan: self.scan@, found: path_views(self.found@) }
    }
}

impl ManifestScan {
    /// A search below `repo_root` with the given bounds, with nothing
    /// visited and nothing found yet.
    pub fn new(repo_root: FsPath, max_depth: usize, max_entries: usize) -> (search: ManifestScan)
        ensures
            search@ == (ManifestScanView {
                scan: ScanView {
                    max_depth: max_depth as nat,
                    max_entries: max_entries as nat,
                    skip_names: manifest_skip_names(),
                    pending: seq![(repo_root@, 0nat)],
                    visited: 0,
                },
                found: Seq::empty(),
            }),
    {
        let scan = TreeScan::new(repo_root, max_depth, max_entries, manifest_skip_list());
        let found: Vec<FsPath> = Vec::new();
        assert(path_views(found@) =~= Seq::empty());
        ManifestScan { scan, found }
    }

    /// Takes the next directory to look at; none when the search is over.
    pub fn next_directory(&mut self) -> (next: Option<PendingDir>)
        ensures
            final(self)@.found == old(self)@.found,
            match next {
                Some(dir) => {
                    &&& old(self)@.scan.visited < old(self)@.scan.max_entries
                    &&& old(self)@.scan.pending.len() > 0
                    &&& (dir.dir@, dir.depth as nat) == old(self)@.scan.pending[0]
                    &&& final(self)@.scan == (ScanView {
                        pending: old(self)@.scan.pending.skip(1),
                        visited: old(self)@.scan.visited + 1,
                        ..old(self)@.scan
                    })
                },
                None => {
                    &&& old(self)@.scan.visited >= old(self)@.scan.max_entries
                        || old(self)@.scan.pending.len() == 0
                    &&& final(self)@.scan == old(self)@.scan
                },
            },
    {
        self.scan.next_directory()
    }

    /// Takes whether the manifest file is a regular file in `dir`, and
    /// notes the directory if so. A manifest directory is entered like any
    /// other: the answer tells whether the entries of `dir` are wanted,
    /// which they are above the depth bound.
    pub fn record_probe(&mut self, dir: &PendingDir, has_manifest: bool) -> (wants_entries: bool)
        ensures
            final(self)@.scan == old(self)@.scan,
            final(self)@.found == if has_manifest {
                old(self)@.found.push(dir.dir@)
            } else {
                old(self)@.found
            },
            wants_entries == (dir.depth < old(self)@.scan.max_depth),
    {
        if has_manifest {
            let ghost before = path_views(self.found@);
            self.found.push(dir.dir.copy());
            assert(path_views(self.found@) =~= before.push(dir.dir@));
        }
        self.scan.descends_from(dir.depth)
    }

    /// Takes the entries of the directory `dir`.
    pub fn offer_entries(&mut self, dir: &PendingDir, entries: &Vec<ScanEntry>)
        ensures
            final(self)@.found == old(self)@.found,
            final(self)@.scan == after_listing(
                old(self)@.scan,
                dir.dir@,
                dir.depth as nat,
                entries@,
            ),
    {
        self.scan.offer_entries(dir, entries);
    }

    /// The manifest directories found, in the order in which they were
    /// found.
    pub fn finish(self) -> (dirs: Vec<FsPath>)
        ensures
            path_views(dirs@) == self@.found,
    {
        self.found
    }
}

/// Starts a search for manifest directories below `repo_root`, breadth
/// first, within the bounds given. The caller runs the search as it runs
/// one for repositories.
pub fn find_cargo_manifests_bfs(repo_root: FsPath, max_depth: usize, max_entries: usize) -> (search:
    ManifestScan)
    ensures
        search@ == (ManifestScanView {
            scan: ScanView {
                max_depth: max_depth as nat,
                max_entries: max_entries as nat,
                skip_names: manifest_skip_names(),
                pending: seq![(repo_root@, 0nat)],
                visited: 0,
            },
            found: Seq::empty(),
        }),
{
    ManifestScan::new(repo_root, max_depth, max_entries)
}

/// Chooses the manifest directory. A directory that the user named is
/// taken or refused by itself. Else the candidates are those found on the
/// way up from the working directory, and only where there are none,
/// those that the search found. No candidate is an error. One candidate
/// is the choice. Several candidates are handed back in order, each
/// once, for the user to pick from; where no question may be asked they
/// are an error.
pub fn resolve_cargo_manifest_dir(
    explicit: Option<ExplicitManifestDir>,
    upward: &Vec<FsPath>,
    scanned: &Vec<FsPath>,
    repo_root: &FsPath,
    options: ResolveHookOptions,
) -> (r: Result<ManifestChoice, ManifestError>)
    ensures
        match explicit {
            Some(named) => match r {
                Ok(ManifestChoice::Resolved { dir }) => explicit_manifest_dir(
                    repo_root@,
                    named.dir@,
                    named.has_manifest,
                ) == Ok::<PathView, ManifestError>(dir@),
                Ok(ManifestChoice::Ask { .. }) => false,
                Err(e) => explicit_manifest_dir(repo_root@, named.dir@, named.has_manifest)
                    == Err::<PathView, ManifestError>(e),
            },
            None => {
                let given = manifest_candidates(path_views(upward@), path_views(scanned@));
                match r {
                    Ok(ManifestChoice::Resolved { dir }) => is_sorted_set(seq![dir@], given),
                    Ok(ManifestChoice::Ask { candidates, labels }) => {
                        &&& !options.non_interactive && !options.yes
                        &&& candidates.len() > 1
                        &&& is_sorted_set(path_views(candidates@), given)
                        &&& labels.len() == candidates.len()
                        &&& forall|i: int|
                            0 <= i < labels.len() ==> (#[trigger] labels@[i])@ == relative_text(
                                repo_root@,
                                candidates@[i]@,
                            )
                    },
                    Err(ManifestError::NoManifestFound) => given.len() == 0,
                    Err(ManifestError::MultipleManifests) => {
                        &&& options.non_interactive || options.yes
                        &&& exists|sorted: Seq<PathView>|
                            sorted.len() > 1 && is_sorted_set(sorted, given)
                    },
                    Err(_) => false,
                }
            },
        },
{
    match explicit {
        Some(named) => {
            return match resolve_manifest_dir_from_cli(repo_root, &named.dir, named.has_manifest) {
                Ok(dir) => Ok(ManifestChoice::Resolved { dir }),
                Err(e) => Err(e),
            };
        },
        None => {},
    }
    let given = if upward.len() > 0 {
        upward
    } else {
        scanned
    };
    let sorted = sort_paths(given);
    let ghost views = path_views(sorted@);
    if sorted.len() == 0 {
        proof {
            if given.len() > 0 {
                assert(path_views(given@)[0] == path_views(given@)[0]);
                assert(holds_path(path_views(given@), path_views(given@)[0]));
                assert(holds_path(views, path_views(given@)[0]));
            }
        }
        return Err(ManifestError::NoManifestFound);
    }
    if sorted.len() == 1 {
        let dir = sorted[0].copy();
        assert(seq![dir@] =~= views);
        return Ok(ManifestChoice::Resolved { dir });
    }
    if options.non_interactive || options.yes {
        proof {
            let candidates = manifest_candidates(path_views(upward@), path_views(scanned@));
            assert(candidates == path_views(given@));
            assert(views.len() > 1 && is_sorted_set(views, candidates));
        }
        return Err(ManifestError::MultipleManifests);
    }
    let mut labels: Vec<String> = Vec::new();
    let mut i: usize = 0;
    while i < sorted.len()
        invariant
            i <= sorted.len(),
            labels.len() == i,
            forall|j: int|
                0 <= j < i ==> (#[trigger] labels@[j])@ == relative_text(repo_root@, sorted@[j]@),
        decreases sorted.len() - i,
    {
        labels.push(relative_display(repo_root, &sorted[i]));
        i += 1;
    }
    Ok(ManifestChoice::Ask { candidates: sorted, labels })
}

/// The candidate that the user picked by its place on the list.
pub fn select_candidate(candidates: &Vec<FsPath>, selected: usize) -> (r: Result<
    FsPath,
    ManifestError,
>)
    ensures
        match r {
            Ok(dir) => selected < candidates.len() && dir@ == candidates@[selected as int]@,
            Err(e) => selected >= candidates.len() && e == ManifestError::InvalidSelection,
        },
{
    if selected < candidates.len() {
        Ok(candidates[selected].copy())
    } else {
        Err(ManifestError::InvalidSelection)
    }
}

/// Turns a failed choice into none: for callers that carry on without a
/// manifest directory.
pub fn resolve_cargo_dir_best_effort(choice: Result<ManifestChoice, ManifestError>) -> (r: Option<
    FsPath,
>)
    ensures
        r == match choice {
            Ok(ManifestChoice::Resolved { dir }) => Some(dir),
            _ => None,
        },
{
    match choice {
        Ok(ManifestChoice::Resolved { dir }) => Some(dir),
        _ => None,
    }
}

} // verus!

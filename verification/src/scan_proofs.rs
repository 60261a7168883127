//! What holds of a search for repositories that is run as it is meant to
//! be: each directory that the search hands out is probed, and listed
//! only where the probe found no repository. Then no repository that is
//! found lies inside another one, and none lies deeper than the depth
//! bound.

use vstd::prelude::*;
use crate::git_repo::{after_probe, git_dir_of, has_root, DotGit, RepoScanView};
use crate::paths::{is_within, PathView};
use crate::scan::{
    after_entries, after_listing, lemma_after_entries_bounds, ScanEntry, ScanView,
};

verus! {

/// Whether `path` lies below `base`, and is not `base` itself.
pub open spec fn strictly_within(path: PathView, base: PathView) -> bool {
    is_within(path, base) && path.names.len() > base.names.len()
}

/// Whether `dir` is the root of a repository, by what stands at its
/// `.git`.
pub open spec fn holds_repository(probes: spec_fn(PathView) -> DotGit, dir: PathView) -> bool {
    match git_dir_of(dir, probes(dir)) {
        Ok(Some(_)) => true,
        _ => false,
    }
}

/// Whether the search came to `dir` rightly: `dir` lies at or below the
/// root of the search, `depth` levels below it and within the depth
/// bound, and no directory from the root down to the one above `dir` is
/// the root of a repository.
pub open spec fn reached_rightly(
    probes: spec_fn(PathView) -> DotGit,
    root: PathView,
    max_depth: nat,
    dir: PathView,
    depth: nat,
) -> bool {
    &&& is_within(dir, root)
    &&& depth == dir.names.len() - root.names.len()
    &&& depth <= max_depth
    &&& forall|above: PathView|
        #[trigger] is_within(above, root) && strictly_within(dir, above) ==> !holds_repository(
            probes,
            above,
        )
}

/// Whether the search is sound: it came rightly to every directory that
/// waits, and every repository found is one and was come to rightly.
pub open spec fn search_is_sound(
    probes: spec_fn(PathView) -> DotGit,
    root: PathView,
    search: RepoScanView,
) -> bool {
    &&& forall|i: int|
        0 <= i < search.scan.pending.len() ==> reached_rightly(
            probes,
            root,
            search.scan.max_depth,
            (#[trigger] search.scan.pending[i]).0,
            search.scan.pending[i].1,
        )
    &&& forall|i: int|
        0 <= i < search.found.len() ==> {
            &&& holds_repository(probes, (#[trigger] search.found[i]).0)
            &&& reached_rightly(
                probes,
                root,
                search.scan.max_depth,
                search.found[i].0,
                (search.found[i].0.names.len() - root.names.len()) as nat,
            )
        }
}

/// A search is sound at its start.
pub proof fn lemma_start_is_sound(
    probes: spec_fn(PathView) -> DotGit,
    root: PathView,
    max_depth: nat,
    max_entries: nat,
    skip_names: Seq<Seq<char>>,
)
    ensures
        search_is_sound(
            probes,
            root,
            RepoScanView {
                scan: ScanView {
                    max_depth,
                    max_entries,
                    skip_names,
                    pending: seq![(root, 0nat)],
                    visited: 0,
                },
                found: Seq::empty(),
            },
        ),
{
    assert(root.names.take(root.names.len() as int) =~= root.names);
}

/// Taking the next directory keeps a search sound, and the search came
/// rightly to the directory taken.
pub proof fn lemma_taking_keeps_sound(
    probes: spec_fn(PathView) -> DotGit,
    root: PathView,
    search: RepoScanView,
)
    requires
        search_is_sound(probes, root, search),
        search.scan.pending.len() > 0,
    ensures
        reached_rightly(
            probes,
            root,
            search.scan.max_depth,
            search.scan.pending[0].0,
            search.scan.pending[0].1,
        ),
        search_is_sound(
            probes,
            root,
            RepoScanView {
                scan: ScanView {
                    pending: search.scan.pending.skip(1),
                    visited: search.scan.visited + 1,
                    ..search.scan
                },
                ..search
            },
        ),
{
    let rest = search.scan.pending.skip(1);
    assert forall|i: int| 0 <= i < rest.len() implies reached_rightly(
        probes,
        root,
        search.scan.max_depth,
        (#[trigger] rest[i]).0,
        rest[i].1,
    ) by {
        assert(rest[i] == search.scan.pending[i + 1]);
    }
}

/// Telling the search what stands at `.git` in a directory that it came
/// to rightly keeps it sound.
pub proof fn lemma_probe_keeps_sound(
    probes: spec_fn(PathView) -> DotGit,
    root: PathView,
    search: RepoScanView,
    dir: PathView,
    depth: nat,
)
    requires
        search_is_sound(probes, root, search),
        reached_rightly(probes, root, search.scan.max_depth, dir, depth),
    ensures
        search_is_sound(probes, root, after_probe(search, dir, probes(dir))),
{
    let after = after_probe(search, dir, probes(dir));
    assert forall|i: int| 0 <= i < after.found.len() implies {
        &&& holds_repository(probes, (#[trigger] after.found[i]).0)
        &&& reached_rightly(
            probes,
            root,
            after.scan.max_depth,
            after.found[i].0,
            (after.found[i].0.names.len() - root.names.len()) as nat,
        )
    } by {
        if i < search.found.len() {
            assert(after.found[i] == search.found[i]);
        }
    }
}

/// Listing a directory that the search came to rightly, and that is no
/// root of a repository, keeps the search sound.
pub proof fn lemma_listing_keeps_sound(
    probes: spec_fn(PathView) -> DotGit,
    root: PathView,
    search: RepoScanView,
    dir: PathView,
    depth: nat,
    entries: Seq<ScanEntry>,
)
    requires
        search_is_sound(probes, root, search),
        reached_rightly(probes, root, search.scan.max_depth, dir, depth),
        !holds_repository(probes, dir),
        search.scan.visited <= search.scan.max_entries,
    ensures
        search_is_sound(
            probes,
            root,
            RepoScanView { scan: after_listing(search.scan, dir, depth, entries), ..search },
        ),
{
    let scan = search.scan;
    let after = after_listing(scan, dir, depth, entries);
    if depth < scan.max_depth {
        lemma_after_entries_bounds(scan, dir, depth, entries);
        assert(after == after_entries(scan, dir, depth, entries));
        assert forall|i: int| 0 <= i < after.pending.len() implies reached_rightly(
            probes,
            root,
            after.max_depth,
            (#[trigger] after.pending[i]).0,
            after.pending[i].1,
        ) by {
            if i < scan.pending.len() {
                assert(after.pending.take(scan.pending.len() as int)[i] == scan.pending[i]);
            } else {
                let child = after.pending[i].0;
                assert(child.names.drop_last() == dir.names);
                assert(child.names.take(root.names.len() as int) =~= dir.names.take(
                    root.names.len() as int,
                ));
                assert forall|above: PathView|
                    #[trigger] is_within(above, root) && strictly_within(
                        child,
                        above,
                    ) implies !holds_repository(probes, above) by {
                    assert(dir.names.take(above.names.len() as int) =~= child.names.take(
                        above.names.len() as int,
                    ));
                    if above.names.len() == dir.names.len() {
                        assert(dir.names.take(dir.names.len() as int) =~= dir.names);
                        assert(above.names =~= dir.names);
                        assert(above == dir);
                    } else {
                        assert(strictly_within(dir, above));
                    }
                }
            }
        }
    }
}

/// In a sound search no repository that was found lies inside another
/// one, and none lies deeper below the root than the depth bound.
pub proof fn lemma_sound_search_finds_no_nested_repository(
    probes: spec_fn(PathView) -> DotGit,
    root: PathView,
    search: RepoScanView,
)
    requires
        search_is_sound(probes, root, search),
    ensures
        forall|i: int, j: int|
            0 <= i < search.found.len() && 0 <= j < search.found.len() ==> !strictly_within(
                (#[trigger] search.found[i]).0,
                (#[trigger] search.found[j]).0,
            ),
        forall|i: int|
            0 <= i < search.found.len() ==> is_within((#[trigger] search.found[i]).0, root)
                && search.found[i].0.names.len() - root.names.len() <= search.scan.max_depth,
{
    assert forall|i: int, j: int|
        0 <= i < search.found.len() && 0 <= j < search.found.len() implies !strictly_within(
        (#[trigger] search.found[i]).0,
        (#[trigger] search.found[j]).0,
    ) by {
        let inner = search.found[i].0;
        let outer = search.found[j].0;
        if strictly_within(inner, outer) {
            assert(is_within(outer, root));
            assert(holds_repository(probes, outer));
        }
    }
}

} // verus!

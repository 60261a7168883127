//! A bounded walk through a directory tree, breadth first. The walk itself
//! reads nothing: it hands out the next directory to look at, and takes
//! what was found there.
//!
//! Three bounds hold at once. No directory deeper than `max_depth` below
//! the root is visited, the root being at depth 0, and none at that depth
//! is listed. No more than `max_entries` directories and entries are
//! visited, counted together. And no directory whose name is on the skip
//! list is entered.

use std::collections::VecDeque;
use vstd::prelude::*;
use crate::lines::line_views;
use crate::names::holds_name;
use crate::paths::{FsPath, PathView};
use crate::text::chars_of;

verus! {

/// A directory that waits to be visited.
#[derive(Clone, Debug, PartialEq, Eq)]
pub struct PendingDir {
    /// The directory.
    pub dir: FsPath,
    /// How many levels below the root of the walk it lies.
    pub depth: usize,
}

/// One entry of a directory, as it was read.
#[derive(Clone, Debug, PartialEq, Eq)]
pub struct ScanEntry {
    /// The entry's name; none where the entry could not be read or its
    /// name is no text.
    pub name: Option<String>,
    /// Whether the entry is a directory.
    pub is_dir: bool,
    /// Whether the entry is a regular file.
    pub is_file: bool,
}

/// The state of a walk.
pub struct TreeScan {
    /// The depth below which no directory is listed.
    pub max_depth: usize,
    /// How many directories and entries may be visited.
    pub max_entries: usize,
    /// The names of directories that are never entered.
    pub skip_names: Vec<Vec<char>>,
    /// The directories that wait, the next one first.
    pub pending: VecDeque<PendingDir>,
    /// How many directories and entries were visited.
    pub visited: usize,
}

/// What a walk is to the contracts.
pub struct ScanView {
    /// The depth below which no directory is listed.
    pub max_depth: nat,
    /// How many directories and entries may be visited.
    pub max_entries: nat,
    /// The names of directories that are never entered.
    pub skip_names: Seq<Seq<char>>,
    /// The directories that wait, each with its depth, the next one first.
    pub pending: Seq<(PathView, nat)>,
    /// How many directories and entries were visited.
    pub visited: nat,
}

/// The waiting directories with their depths.
pub open spec fn pending_views(pending: Seq<PendingDir>) -> Seq<(PathView, nat)> {
    Seq::new(pending.len(), |i: int| (pending[i].dir@, pending[i].depth as nat))
}

impl View for TreeScan {
    type V = ScanView;

    open spec fn view(&self) -> ScanView {
        ScanView {
            max_depth: self.max_depth as nat,
            max_entries: self.max_entries as nat,
            skip_names: line_views(self.skip_names@),
            pending: pending_views(self.pending@),
            visited: self.visited as nat,
        }
    }
}

/// Whether the entry is a directory to enter: a directory with a name
/// that is not on the skip list.
pub open spec fn is_entered(skip_names: Seq<Seq<char>>, entry: ScanEntry) -> bool {
    entry.is_dir && entry.name.is_some() && !skip_names.contains(entry.name.unwrap()@)
}

/// The walk after one entry of the directory `parent` at depth `depth`.
/// With the count used up nothing changes. Else the entry is counted, and
/// a directory to enter joins the waiting ones, one level deeper.
pub open spec fn after_entry(scan: ScanView, parent: PathView, depth: nat, entry: ScanEntry)
    -> ScanView {
    if scan.visited >= scan.max_entries {
        scan
    } else {
        ScanView {
            visited: scan.visited + 1,
            pending: if is_entered(scan.skip_names, entry) {
                scan.pending.push(
                    (
                        PathView {
                            absolute: parent.absolute,
                            names: parent.names.push(entry.name.unwrap()@),
                        },
                        depth + 1,
                    ),
                )
            } else {
                scan.pending
            },
            ..scan
        }
    }
}

/// The walk after the entries of the directory `parent`, in their order.
pub open spec fn after_entries(
    scan: ScanView,
    parent: PathView,
    depth: nat,
    entries: Seq<ScanEntry>,
) -> ScanView
    decreases entries.len(),
{
    if entries.len() == 0 {
        scan
    } else {
        after_entry(
            after_entries(scan, parent, depth, entries.drop_last()),
            parent,
            depth,
            entries.last(),
        )
    }
}

/// The walk after a directory was listed: one that lies at the depth
/// bound or deeper adds nothing.
pub open spec fn after_listing(
    scan: ScanView,
    parent: PathView,
    depth: nat,
    entries: Seq<ScanEntry>,
) -> ScanView {
    if depth >= scan.max_depth {
        scan
    } else {
        after_entries(scan, parent, depth, entries)
    }
}

impl TreeScan {
    /// A walk that starts at `root`, with nothing visited yet.
    pub fn new(root: FsPath, max_depth: usize, max_entries: usize, skip_names: Vec<Vec<char>>) -> (scan:
        TreeScan)
        ensures
            scan@ == (ScanView {
                max_depth: max_depth as nat,
                max_entries: max_entries as nat,
                skip_names: line_views(skip_names@),
                pending: seq![(root@, 0nat)],
                visited: 0,
            }),
    {
        let mut pending: VecDeque<PendingDir> = VecDeque::new();
        pending.push_back(PendingDir { dir: root, depth: 0 });
        assert(pending_views(pending@) =~= seq![(root@, 0nat)]);
        TreeScan { max_depth, max_entries, skip_names, pending, visited: 0 }
    }

    /// Takes the next waiting directory and counts it as visited. None is
    /// left where no directory waits or the count is used up; the walk is
    /// then over and stays as it is.
    pub fn next_directory(&mut self) -> (next: Option<PendingDir>)
        ensures
            match next {
                Some(dir) => {
                    &&& old(self)@.visited < old(self)@.max_entries
                    &&& old(self)@.pending.len() > 0
                    &&& (dir.dir@, dir.depth as nat) == old(self)@.pending[0]
                    &&& final(self)@ == (ScanView {
                        pending: old(self)@.pending.skip(1),
                        visited: old(self)@.visited + 1,
                        ..old(self)@
                    })
                },
                None => {
                    &&& old(self)@.visited >= old(self)@.max_entries || old(self)@.pending.len()
                        == 0
                    &&& final(self)@ == old(self)@
                },
            },
    {
        if self.visited >= self.max_entries {
            return None;
        }
        let ghost before = self.pending@;
        match self.pending.pop_front() {
            None => None,
            Some(dir) => {
                self.visited = self.visited + 1;
                assert(pending_views(self.pending@) =~= pending_views(before).skip(1));
                Some(dir)
            },
        }
    }

    /// Whether the entries of a directory at `depth` are wanted: only
    /// above the depth bound.
    pub fn descends_from(&self, depth: usize) -> (r: bool)
        ensures
            r == (depth < self@.max_depth),
    {
        depth < self.max_depth
    }

    /// Takes the entries of the directory `parent`, in the order in which
    /// they were read. Each is counted until the count is used up; the
    /// directories among them that are to be entered join the waiting
    /// ones. A `parent` at the depth bound adds nothing.
    pub fn offer_entries(&mut self, parent: &PendingDir, entries: &Vec<ScanEntry>)
        ensures
            final(self)@ == after_listing(
                old(self)@,
                parent.dir@,
                parent.depth as nat,
                entries@,
            ),
    {
        if parent.depth >= self.max_depth {
            return ;
        }
        let ghost start = self@;
        let mut i: usize = 0;
        assert(entries@.take(0) =~= Seq::empty());
        while i < entries.len()
            invariant
                i <= entries.len(),
                parent.depth < self.max_depth,
                self@ == after_entries(start, parent.dir@, parent.depth as nat, entries@.take(i as int)),
                self@.max_depth == start.max_depth,
            decreases entries.len() - i,
        {
            let ghost before = self@;
            proof {
                assert(entries@.take(i + 1).drop_last() == entries@.take(i as int));
                assert(entries@.take(i + 1).last() == entries@[i as int]);
            }
            if self.visited < self.max_entries {
                self.visited = self.visited + 1;
                let entry = &entries[i];
                if entry.is_dir {
                    match &entry.name {
                        Some(name) => {
                            let name_chars = chars_of(name.as_str());
                            if !holds_name(&self.skip_names, &name_chars) {
                                let child = parent.dir.child(name.as_str());
                                let ghost waiting = self.pending@;
                                let next = PendingDir { dir: child, depth: parent.depth + 1 };
                                self.pending.push_back(next);
                                assert(pending_views(self.pending@) =~= pending_views(
                                    waiting,
                                ).push((child@, (parent.depth + 1) as nat)));
                            }
                        },
                        None => {},
                    }
                }
            }
            assert(self@ == after_entry(before, parent.dir@, parent.depth as nat, entries@[i as int]));
            i += 1;
        }
        assert(entries@.take(entries.len() as int) == entries@);
    }
}

/// While entries are taken, the count never passes its bound, the bounds
/// and the skip list stay, and what waited before still waits in front.
pub proof fn lemma_after_entries_bounds(
    scan: ScanView,
    parent: PathView,
    depth: nat,
    entries: Seq<ScanEntry>,
)
    requires
        scan.visited <= scan.max_entries,
    ensures
        ({
            let after = after_entries(scan, parent, depth, entries);
            &&& after.visited <= after.max_entries
            &&& scan.visited <= after.visited <= scan.visited + entries.len()
            &&& after.max_depth == scan.max_depth
            &&& after.max_entries == scan.max_entries
            &&& after.skip_names == scan.skip_names
            &&& scan.pending.len() <= after.pending.len()
            &&& after.pending.take(scan.pending.len() as int) == scan.pending
            &&& forall|i: int|
                scan.pending.len() <= i < after.pending.len() ==> {
                    &&& (#[trigger] after.pending[i]).1 == depth + 1
                    &&& after.pending[i].0.absolute == parent.absolute
                    &&& after.pending[i].0.names.len() == parent.names.len() + 1
                    &&& after.pending[i].0.names.drop_last() == parent.names
                    &&& !scan.skip_names.contains(after.pending[i].0.names.last())
                }
        }),
    decreases entries.len(),
{
    if entries.len() > 0 {
        let shorter = after_entries(scan, parent, depth, entries.drop_last());
        lemma_after_entries_bounds(scan, parent, depth, entries.drop_last());
        let after = after_entry(shorter, parent, depth, entries.last());
        assert(after.pending.take(scan.pending.len() as int) =~= shorter.pending.take(
            scan.pending.len() as int,
        ));
        assert forall|i: int| scan.pending.len() <= i < after.pending.len() implies {
            &&& (#[trigger] after.pending[i]).1 == depth + 1
            &&& after.pending[i].0.absolute == parent.absolute
            &&& after.pending[i].0.names.len() == parent.names.len() + 1
            &&& after.pending[i].0.names.drop_last() == parent.names
            &&& !scan.skip_names.contains(after.pending[i].0.names.last())
        } by {
            if i < shorter.pending.len() {
                assert(after.pending[i] == shorter.pending[i]);
            } else {
                let name = entries.last().name.unwrap()@;
                assert(parent.names.push(name).drop_last() =~= parent.names);
            }
        }
    } else {
        assert(scan.pending.take(scan.pending.len() as int) =~= scan.pending);
    }
}

/// Whether the walk is within its bounds: no more was visited than may
/// be, and no directory that waits lies deeper than the depth bound.
pub open spec fn within_bounds(scan: ScanView) -> bool {
    &&& scan.visited <= scan.max_entries
    &&& forall|i: int| 0 <= i < scan.pending.len() ==> (#[trigger] scan.pending[i]).1 <= scan.max_depth
}

/// A walk starts within its bounds.
pub proof fn lemma_start_is_within_bounds(
    root: PathView,
    max_depth: nat,
    max_entries: nat,
    skip_names: Seq<Seq<char>>,
)
    ensures
        within_bounds(
            ScanView { max_depth, max_entries, skip_names, pending: seq![(root, 0nat)], visited: 0 },
        ),
{
}

/// Taking the next directory keeps a walk within its bounds.
pub proof fn lemma_taking_stays_within_bounds(scan: ScanView)
    requires
        within_bounds(scan),
        scan.visited < scan.max_entries,
        scan.pending.len() > 0,
    ensures
        within_bounds(
            ScanView { pending: scan.pending.skip(1), visited: scan.visited + 1, ..scan },
        ),
{
    let after = ScanView { pending: scan.pending.skip(1), visited: scan.visited + 1, ..scan };
    assert forall|i: int| 0 <= i < after.pending.len() implies (#[trigger] after.pending[i]).1
        <= after.max_depth by {
        assert(after.pending[i] == scan.pending[i + 1]);
    }
}

/// Listing a directory keeps a walk within its bounds, however many
/// entries the directory has.
pub proof fn lemma_listing_stays_within_bounds(
    scan: ScanView,
    parent: PathView,
    depth: nat,
    entries: Seq<ScanEntry>,
)
    requires
        within_bounds(scan),
    ensures
        within_bounds(after_listing(scan, parent, depth, entries)),
{
    if depth < scan.max_depth {
        lemma_after_entries_bounds(scan, parent, depth, entries);
        let after = after_entries(scan, parent, depth, entries);
        assert forall|i: int| 0 <= i < after.pending.len() implies (#[trigger] after.pending[i]).1
            <= after.max_depth by {
            if i < scan.pending.len() {
                assert(after.pending.take(scan.pending.len() as int)[i] == scan.pending[i]);
            }
        }
    }
}

} // verus!

//! What to do to a hook file: the decisions between reading the file and
//! writing it. The caller reads and writes; the library says what.
//!
//! A hook that this library did not write is never changed without
//! consent, and is backed up first. A hook that holds a managed block is
//! snapshotted before it is changed, and left alone where the new
//! contents equal the old.

use vstd::prelude::*;
use crate::block_proofs::{
    ends_in_two_empty_lines, is_managed_block, lemma_upsert_is_idempotent,
    lemma_upsert_result_has_block, no_stray_cr,
};
use crate::lines::{lines_of, split_lines};
use crate::managed_block::{
    block_range, block_search, contents_view, disable_managed_block, disable_text, ensure_shebang,
    find_block, uninstall_managed_block, uninstall_text, upsert_lines, upsert_managed_block,
    upsert_text, with_shebang, BlockError,
};
use crate::names::{
    all_taken_below, first_unused_name, name_views, names_as_chars, numbered_name, MAX_NAME_COUNTER,
};
use crate::paths::{FsPath, PathView};
use crate::text::{chars_of, string_of, trim, trimmed};
use crate::types::{ErrorKind, InstallOptions};

verus! {

/// The name of the hook that this library manages.
pub const PRE_COMMIT_HOOK_NAME: &'static str = "pre-commit";

/// The name of the directory of hooks inside the git directory.
pub const HOOKS_DIR_NAME: &'static str = "hooks";

/// What stands behind the name of a hook file in the name of its backup.
pub const BACKUP_SUFFIX: &'static str = ".bak";

/// The mode that a hook file is given.
pub const EXECUTABLE_MODE: u32 = 0o755;

/// The bits of a mode that let someone execute the file.
pub const EXECUTE_BITS: u32 = 0o111;

/// Why a hook file was not changed.
#[derive(Clone, Copy, Debug, PartialEq, Eq, Structural)]
pub enum HookError {
    /// There is no hook file.
    NoHook,
    /// A hook is there that this library did not write, and no question
    /// may be asked.
    HookExists,
    /// The user declined.
    Aborted,
    /// Every name that could be given to the backup is taken.
    TooManyBackups,
    /// The managed block could not be used.
    Block(BlockError),
}

impl HookError {
    /// The kind of this error.
    pub open spec fn kind_spec(self) -> ErrorKind {
        match self {
            HookError::NoHook => ErrorKind::NotFound,
            HookError::HookExists => ErrorKind::ConsentRequired,
            HookError::Aborted => ErrorKind::ConsentRequired,
            HookError::TooManyBackups => ErrorKind::ResourceExhausted,
            HookError::Block(e) => e.kind_spec(),
        }
    }

    /// The kind of this error.
    pub fn kind(&self) -> (k: ErrorKind)
        ensures
            k == self.kind_spec(),
    {
        match self {
            HookError::NoHook => ErrorKind::NotFound,
            HookError::HookExists => ErrorKind::ConsentRequired,
            HookError::Aborted => ErrorKind::ConsentRequired,
            HookError::TooManyBackups => ErrorKind::ResourceExhausted,
            HookError::Block(e) => e.kind(),
        }
    }

    /// The sentence shown to a person for this error; where a path
    /// belongs to it, the path of the hook is shown behind the sentence.
    pub fn message(&self) -> (m: &'static str)
        ensures
            m@ == match *self {
                HookError::NoHook => "No pre-commit hook exists at"@,
                HookError::HookExists => "Hook already exists (use --force to overwrite) at"@,
                HookError::Aborted => "Aborted (existing hook was not modified)."@,
                HookError::TooManyBackups => "Too many backup files exist for"@,
                HookError::Block(e) => e.message_spec(),
            },
    {
        match self {
            HookError::NoHook => "No pre-commit hook exists at",
            HookError::HookExists => "Hook already exists (use --force to overwrite) at",
            HookError::Aborted => "Aborted (existing hook was not modified).",
            HookError::TooManyBackups => "Too many backup files exist for",
            HookError::Block(e) => e.message(),
        }
    }
}

/// What is done about a hook that this library did not write.
#[derive(Clone, Copy, Debug, PartialEq, Eq, Structural)]
pub enum ConsentDecision {
    /// Back the hook up and go on.
    BackUp,
    /// Ask the user whether to back the hook up and overwrite it.
    Ask,
    /// Fail: no question may be asked.
    Refuse,
}

/// What is done to the hook file.
#[derive(Clone, Debug, PartialEq, Eq)]
pub enum HookChange {
    /// Nothing: the contents are as they should be. No snapshot, no write.
    Unchanged,
    /// The file is created with these contents.
    Create { contents: String },
    /// A snapshot is taken, then these contents are written.
    SnapshotAndWrite { contents: String },
    /// A snapshot is taken, then the file is removed.
    SnapshotAndRemove,
}

/// What a change of the hook file is to the contracts.
pub enum HookChangeView {
    Unchanged,
    Create { contents: Seq<char> },
    SnapshotAndWrite { contents: Seq<char> },
    SnapshotAndRemove,
}

impl View for HookChange {
    type V = HookChangeView;

    open spec fn view(&self) -> HookChangeView {
        match self {
            HookChange::Unchanged => HookChangeView::Unchanged,
            HookChange::Create { contents } => HookChangeView::Create { contents: contents@ },
            HookChange::SnapshotAndWrite { contents } => HookChangeView::SnapshotAndWrite {
                contents: contents@,
            },
            HookChange::SnapshotAndRemove => HookChangeView::SnapshotAndRemove,
        }
    }
}

/// An upsert into a hook file, planned.
#[derive(Clone, Debug, PartialEq, Eq)]
pub struct UpsertPlan {
    /// Whether the file is a hook that this library did not write: the
    /// user's consent and a backup come before the change.
    pub needs_consent: bool,
    /// What is done to the file.
    pub change: HookChange,
}

/// What is done about an unmanaged hook under these options: `force` or
/// `yes` back it up; else `non_interactive` refuses; else the user is
/// asked.
pub open spec fn consent_decision(options: InstallOptions) -> ConsentDecision {
    if options.force || options.yes {
        ConsentDecision::BackUp
    } else if options.non_interactive {
        ConsentDecision::Refuse
    } else {
        ConsentDecision::Ask
    }
}

/// The change that writes `updated` over `existing`: none where they are
/// equal.
pub open spec fn change_if_different(existing: Seq<char>, updated: Seq<char>) -> HookChangeView {
    if existing == updated {
        HookChangeView::Unchanged
    } else {
        HookChangeView::SnapshotAndWrite { contents: updated }
    }
}

/// Whether the file is a hook that this library did not write: it exists
/// and holds no managed block.
pub open spec fn upsert_needs_consent(existing: Option<Seq<char>>) -> bool {
    match existing {
        None => false,
        Some(text) => block_range(lines_of(text)).is_none(),
    }
}

/// What an upsert of `block` does to the hook file, or the error of a
/// file whose markers are not in order.
pub open spec fn upsert_change(existing: Option<Seq<char>>, block: Seq<char>) -> Result<
    HookChangeView,
    HookError,
> {
    match existing {
        None => Ok(HookChangeView::Create { contents: with_shebang(block) }),
        Some(text) => match upsert_text(text, block) {
            Ok(updated) => Ok(change_if_different(text, updated)),
            Err(e) => Err(HookError::Block(e)),
        },
    }
}

/// What disabling does to the hook file.
pub open spec fn disable_change(existing: Option<Seq<char>>) -> Result<HookChangeView, HookError> {
    match existing {
        None => Err(HookError::NoHook),
        Some(text) => match disable_text(text) {
            Err(e) => Err(HookError::Block(e)),
            Ok(updated) => Ok(change_if_different(text, updated)),
        },
    }
}

/// What uninstalling does to the hook file: a file of which only white
/// space would remain is removed.
pub open spec fn uninstall_change(existing: Option<Seq<char>>) -> Result<
    HookChangeView,
    HookError,
> {
    match existing {
        None => Err(HookError::NoHook),
        Some(text) => match uninstall_text(text) {
            Err(e) => Err(HookError::Block(e)),
            Ok(updated) => if trim(updated).len() == 0 {
                Ok(HookChangeView::SnapshotAndRemove)
            } else {
                Ok(change_if_different(text, updated))
            },
        },
    }
}

/// The name of the backup of a hook file, before any number.
pub open spec fn backup_base_name(file_name: Seq<char>) -> Seq<char> {
    file_name + BACKUP_SUFFIX@
}

/// Decides what is done about a hook that this library did not write.
pub fn handle_existing_hook(options: InstallOptions) -> (decision: ConsentDecision)
    ensures
        decision == consent_decision(options),
{
    if options.force || options.yes {
        ConsentDecision::BackUp
    } else if options.non_interactive {
        ConsentDecision::Refuse
    } else {
        ConsentDecision::Ask
    }
}

/// Takes the decision about an unmanaged hook to its end. `answer` is
/// what the user said where the decision was to ask, else none. The hook
/// is backed up, then overwritten, where the result is `Ok`.
pub fn resolve_consent(decision: ConsentDecision, answer: Option<bool>) -> (r: Result<
    (),
    HookError,
>)
    ensures
        r == match decision {
            ConsentDecision::BackUp => Ok::<(), HookError>(()),
            ConsentDecision::Refuse => Err(HookError::HookExists),
            ConsentDecision::Ask => if answer == Some(true) {
                Ok(())
            } else {
                Err(HookError::Aborted)
            },
        },
{
    match decision {
        ConsentDecision::BackUp => Ok(()),
        ConsentDecision::Refuse => Err(HookError::HookExists),
        ConsentDecision::Ask => match answer {
            Some(true) => Ok(()),
            _ => Err(HookError::Aborted),
        },
    }
}

/// Names the backup of the hook file `file_name`: `<file>.bak`, or the
/// first of `<file>.bak.1`, `<file>.bak.2` and so on that is not among
/// `existing_names`, the names in the directory of the hook.
pub fn backup_existing_hook(file_name: &str, existing_names: &Vec<String>) -> (r: Result<
    String,
    HookError,
>)
    ensures
        match r {
            Ok(name) => {
                &&& !name_views(existing_names@).contains(name@)
                &&& exists|counter: nat|
                    {
                        &&& counter <= MAX_NAME_COUNTER
                        &&& name@ == #[trigger] numbered_name(
                            backup_base_name(file_name@),
                            counter,
                        )
                        &&& all_taken_below(
                            name_views(existing_names@),
                            backup_base_name(file_name@),
                            counter,
                        )
                    }
            },
            Err(e) => {
                &&& e == HookError::TooManyBackups
                &&& all_taken_below(
                    name_views(existing_names@),
                    backup_base_name(file_name@),
                    (MAX_NAME_COUNTER + 1) as nat,
                )
            },
        },
{
    let mut base = chars_of(file_name);
    let mut suffix = chars_of(BACKUP_SUFFIX);
    base.append(&mut suffix);
    assert(base@ == backup_base_name(file_name@));
    let taken = names_as_chars(existing_names);
    match first_unused_name(&taken, &base) {
        None => Err(HookError::TooManyBackups),
        Some((name, counter)) => {
            let text = string_of(&name);
            proof {
                assert(text@ == numbered_name(backup_base_name(file_name@), counter as nat));
            }
            Ok(text)
        },
    }
}

/// Decides whether `updated` is written over `existing`: only where they
/// differ, and then behind a snapshot.
pub fn write_hook_with_snapshot_if_changed(existing: &str, updated: String) -> (change: HookChange)
    ensures
        change@ == change_if_different(existing@, updated@),
{
    let same = crate::text::same_chars(&chars_of(existing), &chars_of(updated.as_str()));
    if same {
        HookChange::Unchanged
    } else {
        HookChange::SnapshotAndWrite { contents: updated }
    }
}

/// Plans an upsert of `block` into the hook file with the contents
/// `existing`, none where there is no file. A file without managed block
/// needs the user's consent and a backup first. An existing file is
/// written only where its contents change, behind a snapshot. A file whose
/// markers are not in order is refused with its error.
pub fn upsert_managed_block_in_file(existing: Option<&str>, block: &str) -> (r: Result<
    UpsertPlan,
    HookError,
>)
    ensures
        match r {
            Ok(plan) => {
                &&& plan.needs_consent == upsert_needs_consent(contents_view(existing))
                &&& upsert_change(contents_view(existing), block@) == Ok::<
                    HookChangeView,
                    HookError,
                >(plan.change@)
            },
            Err(e) => upsert_change(contents_view(existing), block@) == Err::<
                HookChangeView,
                HookError,
            >(e),
        },
{
    match existing {
        None => Ok(
            UpsertPlan {
                needs_consent: false,
                change: HookChange::Create { contents: ensure_shebang(block) },
            },
        ),
        Some(text) => {
            let lines = split_lines(&chars_of(text));
            let found = find_block(&lines);
            let needs_consent = match found {
                Ok(Some(_)) => false,
                _ => true,
            };
            match upsert_managed_block(text, block) {
                Err(e) => Err(HookError::Block(e)),
                Ok(updated) => Ok(
                    UpsertPlan {
                        needs_consent,
                        change: write_hook_with_snapshot_if_changed(text, updated),
                    },
                ),
            }
        },
    }
}

/// Plans the installation of the managed hook: the same as an upsert into
/// the hook file.
pub fn upsert_managed_pre_commit_hook(existing: Option<&str>, block: &str) -> (r: Result<
    UpsertPlan,
    HookError,
>)
    ensures
        match r {
            Ok(plan) => {
                &&& plan.needs_consent == upsert_needs_consent(contents_view(existing))
                &&& upsert_change(contents_view(existing), block@) == Ok::<
                    HookChangeView,
                    HookError,
                >(plan.change@)
            },
            Err(e) => upsert_change(contents_view(existing), block@) == Err::<
                HookChangeView,
                HookError,
            >(e),
        },
{
    upsert_managed_block_in_file(existing, block)
}

/// Plans the switching off of the managed hook with the contents
/// `existing`, none where there is no file.
pub fn disable_managed_pre_commit_hook(existing: Option<&str>) -> (r: Result<HookChange, HookError>)
    ensures
        match r {
            Ok(change) => disable_change(contents_view(existing)) == Ok::<HookChangeView, HookError>(change@),
            Err(e) => disable_change(contents_view(existing)) == Err::<HookChangeView, HookError>(e),
        },
{
    match existing {
        None => Err(HookError::NoHook),
        Some(text) => match disable_managed_block(text) {
            Err(e) => Err(HookError::Block(e)),
            Ok(updated) => Ok(write_hook_with_snapshot_if_changed(text, updated)),
        },
    }
}

/// Plans the removal of the managed block from the hook with the contents
/// `existing`, none where there is no file. Where only white space would
/// remain, the file itself is removed.
pub fn uninstall_managed_pre_commit_hook(existing: Option<&str>) -> (r: Result<
    HookChange,
    HookError,
>)
    ensures
        match r {
            Ok(change) => uninstall_change(contents_view(existing)) == Ok::<HookChangeView, HookError>(change@),
            Err(e) => uninstall_change(contents_view(existing)) == Err::<HookChangeView, HookError>(e),
        },
{
    match existing {
        None => Err(HookError::NoHook),
        Some(text) => match uninstall_managed_block(text) {
            Err(e) => Err(HookError::Block(e)),
            Ok(updated) => {
                let rest = trimmed(&chars_of(updated.as_str()));
                if rest.len() == 0 {
                    Ok(HookChange::SnapshotAndRemove)
                } else {
                    Ok(write_hook_with_snapshot_if_changed(text, updated))
                }
            },
        },
    }
}

/// What is done about a hook file that is written whole, as a premade
/// hook is: a file that exists needs consent, and is backed up.
pub fn write_hook_file(hook_is_there: bool, options: InstallOptions) -> (r: Option<
    ConsentDecision,
>)
    ensures
        r == if hook_is_there {
            Some(consent_decision(options))
        } else {
            None
        },
{
    if hook_is_there {
        Some(handle_existing_hook(options))
    } else {
        None
    }
}

/// What the installation of a hook does.
#[derive(Clone, Debug, PartialEq, Eq)]
pub struct InstallPlan {
    /// What is done about the hook file that is there, where it is one
    /// that this library did not write; none where no consent is needed.
    pub consent: Option<ConsentDecision>,
    /// What is done to the hook file once consent is given or not needed.
    pub change: HookChange,
}

/// Plans the installation of a hook that is written whole, with the
/// contents `hook_contents`. A hook file that is there needs consent and
/// is backed up; then the contents are written, whatever stood there.
pub fn install_hook_script(hook_is_there: bool, hook_contents: String, options: InstallOptions)
    -> (plan: InstallPlan)
    ensures
        plan.consent == if hook_is_there {
            Some(consent_decision(options))
        } else {
            None
        },
        plan.change@ == (HookChangeView::Create { contents: hook_contents@ }),
{
    InstallPlan {
        consent: write_hook_file(hook_is_there, options),
        change: HookChange::Create { contents: hook_contents },
    }
}

/// The path of the hook `hook_name` in the git directory `git_dir`.
pub fn hook_path(git_dir: &FsPath, hook_name: &str) -> (path: FsPath)
    ensures
        path@ == (PathView {
            absolute: git_dir@.absolute,
            names: git_dir@.names.push(HOOKS_DIR_NAME@).push(hook_name@),
        }),
{
    git_dir.child(HOOKS_DIR_NAME).child(hook_name)
}

/// Whether a file with this mode can be executed by anyone; none where
/// the mode is not known.
pub fn is_executable(mode: Option<u32>) -> (r: Option<bool>)
    ensures
        r == match mode {
            Some(bits) => Some(bits & EXECUTE_BITS != 0),
            None => None,
        },
{
    match mode {
        Some(bits) => Some(bits & EXECUTE_BITS != 0),
        None => None,
    }
}

/// Writing the same contents again changes nothing: no snapshot is taken
/// and nothing is written.
pub proof fn lemma_same_contents_are_not_written(contents: Seq<char>)
    ensures
        change_if_different(contents, contents) == HookChangeView::Unchanged,
{
}

/// An upsert that is repeated changes nothing, where the upsert is
/// idempotent: no snapshot is taken and nothing is written.
pub proof fn lemma_repeated_upsert_is_not_written(existing: Seq<char>, block: Seq<char>)
    requires
        is_managed_block(lines_of(block)),
        block_search(lines_of(existing)).is_ok(),
        no_stray_cr(upsert_lines(lines_of(existing), lines_of(block))),
        !ends_in_two_empty_lines(upsert_lines(lines_of(existing), lines_of(block))),
    ensures
        match upsert_text(existing, block) {
            Ok(first) => {
                &&& upsert_change(Some(first), block) == Ok::<HookChangeView, HookError>(
                    HookChangeView::Unchanged,
                )
                &&& !upsert_needs_consent(Some(first))
            },
            Err(_) => false,
        },
{
    lemma_upsert_is_idempotent(existing, block);
    lemma_upsert_result_has_block(existing, block);
}

} // verus!

//! Snapshots of a hook file: copies that are kept beside it, named by the
//! time at which they were taken, and pruned to a bounded number.
//!
//! A snapshot is named `<hook file>.snapshot-<year>-<month>-<day>-<hour>-
//! <minute>-<second>`, in UTC and with a fixed width, so that the order of
//! the names is the order of the times. A second snapshot within the same
//! second gets `.1` behind its name, a third `.2`, and so on.
//!
//! The library does not touch the disk: it is told which names exist, and
//! says which name to copy to and which files to delete.

use vstd::prelude::*;
use crate::lines::{copy_chars, line_views};
use crate::names::{
    all_taken_below, chars_as_names, digit_char, first_unused_name, lemma_with_prefix_holds,
    name_views, names_as_chars, numbered_name, with_prefix, MAX_NAME_COUNTER,
};
use crate::order::{names_rising, sort_names};
use crate::seqs::starts_with;
use crate::text::{chars_of, has_prefix, string_of};
use crate::types::ErrorKind;

verus! {

/// How many snapshots are kept where the caller names no number.
pub const DEFAULT_MAX_SNAPSHOTS: usize = 10;

/// What stands between the name of the hook file and the time.
pub const SNAPSHOT_INFIX: &'static str = ".snapshot-";

/// The format of the time in a snapshot's name.
pub const TIMESTAMP_FORMAT: &'static str = "[year]-[month]-[day]-[hour]-[minute]-[second]";

/// A time in UTC, to the second.
#[derive(Clone, Copy, Debug, PartialEq, Eq, Structural)]
pub struct SnapshotTime {
    pub year: i32,
    pub month: u8,
    pub day: u8,
    pub hour: u8,
    pub minute: u8,
    pub second: u8,
}

/// Why a snapshot could not be planned.
#[derive(Clone, Copy, Debug, PartialEq, Eq, Structural)]
pub enum SnapshotError {
    /// The time is no time of the calendar and cannot be written.
    InvalidTime,
    /// Every name that could be given to the snapshot is taken.
    TooManySnapshots,
}

impl SnapshotError {
    /// The kind of this error.
    pub fn kind(&self) -> (k: ErrorKind)
        ensures
            k == match *self {
                SnapshotError::InvalidTime => ErrorKind::InvalidInput,
                SnapshotError::TooManySnapshots => ErrorKind::ResourceExhausted,
            },
    {
        match self {
            SnapshotError::InvalidTime => ErrorKind::InvalidInput,
            SnapshotError::TooManySnapshots => ErrorKind::ResourceExhausted,
        }
    }

    /// The sentence shown to a person for this error; the path of the
    /// hook file is shown behind it.
    pub fn message(&self) -> (m: &'static str)
        ensures
            m@ == match *self {
                SnapshotError::InvalidTime => "Failed to format timestamp"@,
                SnapshotError::TooManySnapshots => "Too many snapshot files exist for"@,
            },
    {
        match self {
            SnapshotError::InvalidTime => "Failed to format timestamp",
            SnapshotError::TooManySnapshots => "Too many snapshot files exist for",
        }
    }
}

/// Whether a year has a 29th of February.
pub open spec fn is_leap_year(year: int) -> bool {
    year % 4 == 0 && (year % 100 != 0 || year % 400 == 0)
}

/// The number of days of a month.
pub open spec fn days_in_month(year: int, month: int) -> int {
    if month == 2 {
        if is_leap_year(year) {
            29
        } else {
            28
        }
    } else if month == 4 || month == 6 || month == 9 || month == 11 {
        30
    } else {
        31
    }
}

/// Whether the time is one of the calendar, in a year from -9999 to 9999.
pub open spec fn is_calendar_time(t: SnapshotTime) -> bool {
    &&& -9999 <= t.year <= 9999
    &&& 1 <= t.month <= 12
    &&& 1 <= t.day <= days_in_month(t.year as int, t.month as int)
    &&& t.hour < 24
    &&& t.minute < 60
    &&& t.second < 60
}

/// A number below 100 in two digits.
pub open spec fn two_digits(n: nat) -> Seq<char> {
    seq![digit_char(n / 10), digit_char(n % 10)]
}

/// A number below 10000 in four digits.
pub open spec fn four_digits(n: nat) -> Seq<char> {
    two_digits(n / 100) + two_digits(n % 100)
}

/// The time as it stands in a snapshot's name: the year in four digits,
/// behind a minus sign where it is negative, then month, day, hour, minute
/// and second in two digits each, with hyphens between them.
pub open spec fn timestamp_text(t: SnapshotTime) -> Seq<char> {
    let sign = if t.year < 0 {
        seq!['-']
    } else {
        Seq::<char>::empty()
    };
    let year = if t.year < 0 {
        (-t.year) as nat
    } else {
        t.year as nat
    };
    sign + four_digits(year) + seq!['-'] + two_digits(t.month as nat) + seq!['-'] + two_digits(
        t.day as nat,
    ) + seq!['-'] + two_digits(t.hour as nat) + seq!['-'] + two_digits(t.minute as nat) + seq![
        '-',
    ] + two_digits(t.second as nat)
}

/// `OffsetDateTime::now_utc` of the crate `time` reads the clock. Whatever
/// the clock says, the date and time that come back are a time of the
/// calendar: the crate's dates are valid dates of the years -9999 to
/// 9999, and its getters document the ranges of month, day, hour, minute
/// and second.
#[verifier::external_body]
fn utc_now() -> (t: SnapshotTime)
    ensures
        is_calendar_time(t),
{
    let now = time::OffsetDateTime::now_utc();
    SnapshotTime {
        year: now.year(),
        month: u8::from(now.month()),
        day: now.day(),
        hour: now.hour(),
        minute: now.minute(),
        second: now.second(),
    }
}

/// `PrimitiveDateTime::format` of the crate `time`, with the description
/// `[year]-[month]-[day]-[hour]-[minute]-[second]`, on the date and time
/// that `Date::from_calendar_date` and `Time::from_hms` make of the
/// numbers. The crate makes a date of exactly the valid days of the
/// calendar and a time of exactly the valid hours, minutes and seconds.
/// With the modifiers left out it pads each number with zeros: the year to
/// four digits, with a sign only where it is negative, the others to two.
#[verifier::external_body]
fn format_with_time_crate(t: &SnapshotTime, description: &str) -> (r: Option<String>)
    requires
        description@ == TIMESTAMP_FORMAT@,
    ensures
        r.is_some() <==> is_calendar_time(*t),
        r.is_some() ==> r.unwrap()@ == timestamp_text(*t),
{
    let items = time::format_description::parse_borrowed::<1>(description).ok()?;
    let month = time::Month::try_from(t.month).ok()?;
    let date = time::Date::from_calendar_date(t.year, month, t.day).ok()?;
    let clock = time::Time::from_hms(t.hour, t.minute, t.second).ok()?;
    time::PrimitiveDateTime::new(date, clock).format(&items).ok()
}

/// The time now, in UTC.
pub fn current_snapshot_time() -> (t: SnapshotTime)
    ensures
        is_calendar_time(t),
{
    utc_now()
}

/// Writes a time as it stands in a snapshot's name.
pub fn format_timestamp_for_snapshot_name(t: &SnapshotTime) -> (r: Result<String, SnapshotError>)
    ensures
        match r {
            Ok(text) => is_calendar_time(*t) && text@ == timestamp_text(*t),
            Err(e) => !is_calendar_time(*t) && e == SnapshotError::InvalidTime,
        },
{
    match format_with_time_crate(t, TIMESTAMP_FORMAT) {
        Some(text) => Ok(text),
        None => Err(SnapshotError::InvalidTime),
    }
}

/// What the names of the snapshots of a hook file begin with.
pub open spec fn snapshot_prefix_text(file_name: Seq<char>) -> Seq<char> {
    file_name + SNAPSHOT_INFIX@
}

/// What the names of the snapshots of the hook file `file_name` begin
/// with.
pub fn snapshot_prefix(file_name: &str) -> (prefix: String)
    ensures
        prefix@ == snapshot_prefix_text(file_name@),
{
    let mut chars = chars_of(file_name);
    let mut infix = chars_of(SNAPSHOT_INFIX);
    chars.append(&mut infix);
    string_of(&chars)
}

/// Which snapshots go and which stay.
#[derive(Clone, Debug, PartialEq, Eq)]
pub struct PrunePlan {
    /// The names of the files to delete, the oldest first.
    pub remove: Vec<String>,
    /// The names of the snapshots that stay, the oldest first.
    pub keep: Vec<String>,
}

/// Whether `remove` and `keep` are the pruning of the files `file_names`
/// to at most `max_snapshots` snapshots. Together, `remove` first, they
/// are the names that begin with `prefix`, in rising order and each once.
/// With `max_snapshots` 0 nothing is removed. Else as many stay as there
/// are, up to `max_snapshots`: the last ones in the order, which are the
/// newest.
pub open spec fn is_pruning(
    file_names: Seq<Seq<char>>,
    prefix: Seq<char>,
    max_snapshots: nat,
    remove: Seq<Seq<char>>,
    keep: Seq<Seq<char>>,
) -> bool {
    let all = remove + keep;
    &&& names_rising(all)
    &&& forall|n: Seq<char>| all.contains(n) <==> file_names.contains(n) && starts_with(n, prefix)
    &&& max_snapshots == 0 ==> remove.len() == 0
    &&& max_snapshots > 0 ==> keep.len() == if all.len() < max_snapshots {
        all.len()
    } else {
        max_snapshots
    }
}

/// Tells which snapshots to delete so that at most `max_snapshots` stay:
/// the oldest ones, by the order of their names. `file_names` are the
/// names in the directory of the hook; those that do not begin with
/// `prefix` are no snapshots and are left alone. With `max_snapshots` 0
/// nothing is deleted.
pub fn prune_hook_snapshots(file_names: &Vec<String>, prefix: &str, max_snapshots: usize) -> (plan:
    PrunePlan)
    ensures
        is_pruning(
            name_views(file_names@),
            prefix@,
            max_snapshots as nat,
            name_views(plan.remove@),
            name_views(plan.keep@),
        ),
{
    let names = names_as_chars(file_names);
    let prefix_chars = chars_of(prefix);
    let ghost given = line_views(names@);
    let mut snapshots: Vec<Vec<char>> = Vec::new();
    let mut i: usize = 0;
    assert(given.take(0) =~= Seq::empty());
    while i < names.len()
        invariant
            i <= names.len(),
            given == line_views(names@),
            prefix_chars@ == prefix@,
            line_views(snapshots@) == with_prefix(given.take(i as int), prefix@),
        decreases names.len() - i,
    {
        let ghost before = line_views(snapshots@);
        proof {
            assert(given.take(i + 1).drop_last() == given.take(i as int));
            assert(given.take(i + 1).last() == given[i as int]);
        }
        if has_prefix(&names[i], &prefix_chars) {
            snapshots.push(copy_chars(&names[i]));
            assert(line_views(snapshots@) =~= before.push(given[i as int]));
        }
        i += 1;
    }
    assert(given.take(names.len() as int) == given);
    let sorted = sort_names(&snapshots);
    let ghost all = line_views(sorted@);
    let total = sorted.len();
    let cut: usize = if max_snapshots == 0 || total <= max_snapshots {
        0
    } else {
        total - max_snapshots
    };
    let remove = chars_as_names(&sorted, 0, cut);
    let keep = chars_as_names(&sorted, cut, total);
    proof {
        assert(name_views(remove@) + name_views(keep@) =~= all);
        assert forall|n: Seq<char>| all.contains(n) <==> given.contains(n) && starts_with(
            n,
            prefix@,
        ) by {
            lemma_with_prefix_holds(given, prefix@, n);
        }
    }
    PrunePlan { remove, keep }
}

/// The name of a snapshot and the files to delete once it is written.
#[derive(Clone, Debug, PartialEq, Eq)]
pub struct SnapshotPlan {
    /// The name of the file to copy the hook to, in the directory of the
    /// hook.
    pub snapshot_name: String,
    /// The names of the snapshots to delete after the copy, the oldest
    /// first.
    pub remove: Vec<String>,
    /// The names of the snapshots that stay, the new one among them, the
    /// oldest first.
    pub keep: Vec<String>,
}

/// The name of a snapshot taken at the time `t`, before any number.
pub open spec fn snapshot_base_name(file_name: Seq<char>, t: SnapshotTime) -> Seq<char> {
    snapshot_prefix_text(file_name) + timestamp_text(t)
}

/// Plans a snapshot of the hook file `file_name` at the time `now`,
/// before the file is changed. Where the hook is no regular file there is
/// nothing to do. Else the snapshot gets the first name for this second
/// that is not among `existing_names`, the names in the directory of the
/// hook; and the oldest snapshots, the new one counted in, are to be
/// deleted so that at most `max_snapshots` stay.
pub fn create_hook_snapshot_and_prune(
    hook_is_file: bool,
    file_name: &str,
    existing_names: &Vec<String>,
    now: &SnapshotTime,
    max_snapshots: usize,
) -> (r: Result<Option<SnapshotPlan>, SnapshotError>)
    ensures
        match r {
            Ok(None) => !hook_is_file,
            Ok(Some(plan)) => {
                &&& hook_is_file
                &&& is_calendar_time(*now)
                &&& exists|counter: nat|
                    {
                        &&& counter <= MAX_NAME_COUNTER
                        &&& plan.snapshot_name@ == #[trigger] numbered_name(
                            snapshot_base_name(file_name@, *now),
                            counter,
                        )
                        &&& all_taken_below(
                            name_views(existing_names@),
                            snapshot_base_name(file_name@, *now),
                            counter,
                        )
                    }
                &&& !name_views(existing_names@).contains(plan.snapshot_name@)
                &&& is_pruning(
                    name_views(existing_names@).push(plan.snapshot_name@),
                    snapshot_prefix_text(file_name@),
                    max_snapshots as nat,
                    name_views(plan.remove@),
                    name_views(plan.keep@),
                )
            },
            Err(SnapshotError::InvalidTime) => hook_is_file && !is_calendar_time(*now),
            Err(SnapshotError::TooManySnapshots) => {
                &&& hook_is_file
                &&& is_calendar_time(*now)
                &&& all_taken_below(
                    name_views(existing_names@),
                    snapshot_base_name(file_name@, *now),
                    (MAX_NAME_COUNTER + 1) as nat,
                )
            },
        },
{
    if !hook_is_file {
        return Ok(None);
    }
    let timestamp = match format_timestamp_for_snapshot_name(now) {
        Ok(text) => text,
        Err(e) => {
            return Err(e);
        },
    };
    let prefix = snapshot_prefix(file_name);
    let mut base = chars_of(prefix.as_str());
    let mut stamp = chars_of(timestamp.as_str());
    base.append(&mut stamp);
    assert(base@ == snapshot_base_name(file_name@, *now));
    let taken = names_as_chars(existing_names);
    match first_unused_name(&taken, &base) {
        None => Err(SnapshotError::TooManySnapshots),
        Some((name, counter)) => {
            let snapshot_name = string_of(&name);
            let mut names: Vec<String> = Vec::new();
            let mut i: usize = 0;
            while i < existing_names.len()
                invariant
                    i <= existing_names.len(),
                    name_views(names@) == name_views(existing_names@).take(i as int),
                decreases existing_names.len() - i,
            {
                let ghost before = name_views(names@);
                names.push(existing_names[i].clone());
                assert(name_views(names@) =~= before.push(existing_names@[i as int]@));
                assert(name_views(existing_names@).take(i + 1) =~= name_views(
                    existing_names@,
                ).take(i as int).push(existing_names@[i as int]@));
                i += 1;
            }
            assert(name_views(existing_names@).take(existing_names.len() as int) == name_views(
                existing_names@,
            ));
            let ghost before = name_views(names@);
            names.push(snapshot_name.clone());
            assert(name_views(names@) =~= before.push(snapshot_name@));
            let plan = prune_hook_snapshots(&names, prefix.as_str(), max_snapshots);
            proof {
                let base_name = snapshot_base_name(file_name@, *now);
                assert(snapshot_name@ == numbered_name(base_name, counter as nat));
                assert(all_taken_below(name_views(existing_names@), base_name, counter as nat));
                assert(is_pruning(
                    name_views(existing_names@).push(snapshot_name@),
                    snapshot_prefix_text(file_name@),
                    max_snapshots as nat,
                    name_views(plan.remove@),
                    name_views(plan.keep@),
                ));
            }
            Ok(Some(SnapshotPlan { snapshot_name, remove: plan.remove, keep: plan.keep }))
        },
    }
}

} // verus!

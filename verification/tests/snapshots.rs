use git_hook_installer::snapshots::{
    create_hook_snapshot_and_prune, current_snapshot_time, format_timestamp_for_snapshot_name,
    prune_hook_snapshots, snapshot_prefix, SnapshotError, SnapshotTime, DEFAULT_MAX_SNAPSHOTS,
};
use git_hook_installer::types::ErrorKind;

fn time(year: i32, month: u8, day: u8, hour: u8, minute: u8, second: u8) -> SnapshotTime {
    SnapshotTime { year, month, day, hour, minute, second }
}

#[test]
fn snapshot_prune_keeps_newest_10() {
    // arrange
    let mut names = vec!["pre-commit".to_string()];
    for i in 0..12 {
        names.push(format!("pre-commit.snapshot-2026-01-11-15-{:02}-{:02}", i, 0));
    }
    let now = time(2026, 1, 11, 15, 30, 0);

    // act
    let plan = create_hook_snapshot_and_prune(true, "pre-commit", &names, &now, 10).unwrap().unwrap();

    // assert
    let snapshot_count = 12 + 1 - plan.remove.len();
    assert_eq!(snapshot_count, 10);
    assert_eq!(plan.keep.len(), 10);
    assert_eq!(plan.snapshot_name, "pre-commit.snapshot-2026-01-11-15-30-00");
    assert_eq!(plan.keep[0], "pre-commit.snapshot-2026-01-11-15-03-00");
    assert_eq!(plan.keep[9], "pre-commit.snapshot-2026-01-11-15-30-00");
}

#[test]
fn timestamps_have_a_fixed_width() {
    assert_eq!(format_timestamp_for_snapshot_name(&time(2026, 1, 11, 15, 3, 0)), Ok("2026-01-11-15-03-00".to_string()));
    assert_eq!(format_timestamp_for_snapshot_name(&time(987, 12, 31, 23, 59, 59)), Ok("0987-12-31-23-59-59".to_string()));
    assert_eq!(format_timestamp_for_snapshot_name(&time(0, 1, 1, 0, 0, 0)), Ok("0000-01-01-00-00-00".to_string()));
    assert_eq!(format_timestamp_for_snapshot_name(&time(9999, 2, 28, 7, 8, 9)), Ok("9999-02-28-07-08-09".to_string()));
}

#[test]
fn negative_years_carry_a_sign() {
    assert_eq!(format_timestamp_for_snapshot_name(&time(-1, 3, 4, 5, 6, 7)), Ok("-0001-03-04-05-06-07".to_string()));
    assert_eq!(format_timestamp_for_snapshot_name(&time(-9999, 3, 4, 5, 6, 7)), Ok("-9999-03-04-05-06-07".to_string()));
}

#[test]
fn leap_days_follow_the_calendar() {
    assert!(format_timestamp_for_snapshot_name(&time(2024, 2, 29, 0, 0, 0)).is_ok());
    assert!(format_timestamp_for_snapshot_name(&time(2000, 2, 29, 0, 0, 0)).is_ok());
    assert_eq!(format_timestamp_for_snapshot_name(&time(2023, 2, 29, 0, 0, 0)), Err(SnapshotError::InvalidTime));
    assert_eq!(format_timestamp_for_snapshot_name(&time(1900, 2, 29, 0, 0, 0)), Err(SnapshotError::InvalidTime));
    assert_eq!(format_timestamp_for_snapshot_name(&time(-4, 2, 29, 0, 0, 0)), Ok("-0004-02-29-00-00-00".to_string()));
}

#[test]
fn times_off_the_calendar_are_refused() {
    for t in [
        time(2026, 0, 1, 0, 0, 0),
        time(2026, 13, 1, 0, 0, 0),
        time(2026, 4, 31, 0, 0, 0),
        time(2026, 4, 0, 0, 0, 0),
        time(2026, 1, 32, 0, 0, 0),
        time(2026, 1, 1, 24, 0, 0),
        time(2026, 1, 1, 0, 60, 0),
        time(2026, 1, 1, 0, 0, 60),
        time(10_000, 1, 1, 0, 0, 0),
        time(-10_000, 1, 1, 0, 0, 0),
    ] {
        assert_eq!(format_timestamp_for_snapshot_name(&t), Err(SnapshotError::InvalidTime));
    }
    assert_eq!(SnapshotError::InvalidTime.kind(), ErrorKind::InvalidInput);
    assert_eq!(SnapshotError::InvalidTime.message(), "Failed to format timestamp");
    for (month, days) in [(1, 31), (3, 31), (4, 30), (5, 31), (6, 30), (7, 31), (8, 31), (9, 30), (10, 31), (11, 30), (12, 31)] {
        assert!(format_timestamp_for_snapshot_name(&time(2026, month, days, 0, 0, 0)).is_ok());
        assert!(format_timestamp_for_snapshot_name(&time(2026, month, days + 1, 0, 0, 0)).is_err());
    }
}

#[test]
fn the_clock_gives_a_time_that_can_be_written() {
    let now = current_snapshot_time();
    let text = format_timestamp_for_snapshot_name(&now).unwrap();
    assert_eq!(text.len(), 19);
    assert!(now.year >= 2024);
    assert!((1..=12).contains(&now.month));
    assert!((1..=31).contains(&now.day));
    assert!(now.hour < 24 && now.minute < 60 && now.second < 60);
    assert_eq!(text, format!("{:04}-{:02}-{:02}-{:02}-{:02}-{:02}", now.year, now.month, now.day, now.hour, now.minute, now.second));
}

#[test]
fn later_times_give_greater_names() {
    let times = [
        time(1999, 12, 31, 23, 59, 59),
        time(2000, 1, 1, 0, 0, 0),
        time(2000, 1, 1, 0, 0, 1),
        time(2000, 1, 1, 0, 1, 0),
        time(2000, 1, 1, 1, 0, 0),
        time(2000, 1, 2, 0, 0, 0),
        time(2000, 2, 1, 0, 0, 0),
        time(2000, 10, 1, 0, 0, 0),
        time(2001, 1, 1, 0, 0, 0),
    ];
    for pair in times.windows(2) {
        let a = format_timestamp_for_snapshot_name(&pair[0]).unwrap();
        let b = format_timestamp_for_snapshot_name(&pair[1]).unwrap();
        assert!(a < b);
    }
}

#[test]
fn a_hook_that_is_no_file_is_not_snapshotted() {
    let names: Vec<String> = vec![];
    assert_eq!(create_hook_snapshot_and_prune(false, "pre-commit", &names, &time(2026, 1, 1, 0, 0, 0), 10), Ok(None));
    assert_eq!(create_hook_snapshot_and_prune(false, "pre-commit", &names, &time(2026, 2, 30, 0, 0, 0), 10), Ok(None));
    assert_eq!(
        create_hook_snapshot_and_prune(true, "pre-commit", &names, &time(2026, 2, 30, 0, 0, 0), 10),
        Err(SnapshotError::InvalidTime)
    );
}

#[test]
fn a_second_snapshot_in_the_same_second_is_numbered() {
    let now = time(2026, 1, 11, 15, 0, 0);
    let mut names = vec!["pre-commit".to_string(), "pre-commit.snapshot-2026-01-11-15-00-00".to_string()];
    let plan = create_hook_snapshot_and_prune(true, "pre-commit", &names, &now, 10).unwrap().unwrap();
    assert_eq!(plan.snapshot_name, "pre-commit.snapshot-2026-01-11-15-00-00.1");
    assert!(plan.remove.is_empty());
    names.push("pre-commit.snapshot-2026-01-11-15-00-00.1".to_string());
    let plan = create_hook_snapshot_and_prune(true, "pre-commit", &names, &now, 10).unwrap().unwrap();
    assert_eq!(plan.snapshot_name, "pre-commit.snapshot-2026-01-11-15-00-00.2");
    assert_eq!(
        plan.keep,
        vec![
            "pre-commit.snapshot-2026-01-11-15-00-00".to_string(),
            "pre-commit.snapshot-2026-01-11-15-00-00.1".to_string(),
            "pre-commit.snapshot-2026-01-11-15-00-00.2".to_string(),
        ]
    );
}

#[test]
fn too_many_snapshots_in_one_second_are_an_error() {
    let now = time(2026, 1, 11, 15, 0, 0);
    let mut names = vec!["pre-commit.snapshot-2026-01-11-15-00-00".to_string()];
    for i in 1..=10_000 {
        names.push(format!("pre-commit.snapshot-2026-01-11-15-00-00.{i}"));
    }
    let err = create_hook_snapshot_and_prune(true, "pre-commit", &names, &now, 10).unwrap_err();
    assert_eq!(err, SnapshotError::TooManySnapshots);
    assert_eq!(err.kind(), ErrorKind::ResourceExhausted);
    assert_eq!(err.message(), "Too many snapshot files exist for");
}

#[test]
fn pruning_with_zero_keeps_everything() {
    let names: Vec<String> = (0..15).map(|i| format!("pre-commit.snapshot-2026-01-11-15-{:02}-00", i)).collect();
    let plan = prune_hook_snapshots(&names, "pre-commit.snapshot-", 0);
    assert!(plan.remove.is_empty());
    assert_eq!(plan.keep.len(), 15);
}

#[test]
fn pruning_leaves_other_files_alone_and_removes_the_oldest() {
    let names = vec![
        "pre-commit.snapshot-2026-03-01-00-00-00".to_string(),
        "pre-commit".to_string(),
        "pre-commit.bak".to_string(),
        "pre-commit.snapshot-2025-12-31-23-59-59".to_string(),
        "pre-push.snapshot-2020-01-01-00-00-00".to_string(),
        "pre-commit.snapshot-2026-01-01-00-00-00".to_string(),
    ];
    let plan = prune_hook_snapshots(&names, &snapshot_prefix("pre-commit"), 2);
    assert_eq!(plan.remove, vec!["pre-commit.snapshot-2025-12-31-23-59-59".to_string()]);
    assert_eq!(
        plan.keep,
        vec![
            "pre-commit.snapshot-2026-01-01-00-00-00".to_string(),
            "pre-commit.snapshot-2026-03-01-00-00-00".to_string(),
        ]
    );
    let plan = prune_hook_snapshots(&names, &snapshot_prefix("pre-commit"), 3);
    assert!(plan.remove.is_empty());
    let plan = prune_hook_snapshots(&names, &snapshot_prefix("pre-commit"), 1);
    assert_eq!(plan.remove.len(), 2);
    assert_eq!(plan.keep, vec!["pre-commit.snapshot-2026-03-01-00-00-00".to_string()]);
}

#[test]
fn after_many_writes_the_newest_snapshots_remain() {
    let k = 3;
    let mut names = vec!["pre-commit".to_string()];
    let mut created = Vec::new();
    for i in 0..8u8 {
        let now = time(2026, 1, 11, 15, i, 0);
        let plan = create_hook_snapshot_and_prune(true, "pre-commit", &names, &now, k).unwrap().unwrap();
        created.push(plan.snapshot_name.clone());
        names.push(plan.snapshot_name.clone());
        names.retain(|n| !plan.remove.contains(n));
        let snapshots: Vec<String> = names.iter().filter(|n| n.starts_with("pre-commit.snapshot-")).cloned().collect();
        let expected: Vec<String> = created.iter().rev().take(k).rev().cloned().collect();
        assert_eq!(snapshots, expected);
    }
    assert_eq!(names.len(), 1 + k);
    assert_eq!(DEFAULT_MAX_SNAPSHOTS, 10);
}

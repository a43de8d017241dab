use slicefs_cli::cli::SnapshotAction;
use slicefs_cli::snapshot::{
    days_to_ymd, format_unix_timestamp, root_hex, run_snapshot, snapshot_list_lines, SnapshotEvent,
    SnapshotInfo, SnapshotNext, SnapshotWork,
};

fn info(version: u64, name: Option<&str>, created_at: u64, root: [u32; 7]) -> SnapshotInfo {
    SnapshotInfo { version, name: name.map(|s| s.to_string()), created_at, root }
}

/// Proleptic Gregorian date by counting days one at a time.
fn slow_ymd(days: u64) -> (u32, u32, u32) {
    let leap = |y: u64| y % 4 == 0 && (y % 100 != 0 || y % 400 == 0);
    let mut y: u64 = 1970;
    let mut rem = days;
    loop {
        let len = if leap(y) { 366 } else { 365 };
        if rem < len {
            break;
        }
        rem -= len;
        y += 1;
    }
    let ml = [31, if leap(y) { 29 } else { 28 }, 31, 30, 31, 30, 31, 31, 30, 31, 30, 31];
    let mut m = 0usize;
    while rem >= ml[m] {
        rem -= ml[m];
        m += 1;
    }
    (y as u32, m as u32 + 1, rem as u32 + 1)
}

#[test]
fn test_format_unix_timestamp_zero_returns_unknown() {
    assert_eq!(format_unix_timestamp(0), "unknown");
}

#[test]
fn test_format_unix_timestamp_epoch() {
    assert_eq!(format_unix_timestamp(1), "1970-01-01T00:00:01Z");
}

#[test]
fn test_format_unix_timestamp_known_date() {
    assert_eq!(format_unix_timestamp(1704067200), "2024-01-01T00:00:00Z");
}

#[test]
fn format_unix_timestamp_leap_day_and_time_of_day() {
    // 2000-02-29T12:34:56Z
    assert_eq!(format_unix_timestamp(951827696), "2000-02-29T12:34:56Z");
    // 2100 is not a leap year: 2100-03-01 follows 2100-02-28.
    assert_eq!(format_unix_timestamp(4107542400), "2100-03-01T00:00:00Z");
    assert_eq!(format_unix_timestamp(86399), "1970-01-01T23:59:59Z");
}

#[test]
fn days_to_ymd_matches_day_by_day_count() {
    let mut d = 0u64;
    while d < 200_000 {
        assert_eq!(days_to_ymd(d), slow_ymd(d), "day {}", d);
        d += 37;
    }
    assert_eq!(days_to_ymd(0), (1970, 1, 1));
    assert_eq!(days_to_ymd(19723), (2024, 1, 1));
    assert_eq!(days_to_ymd(146097), (2370, 1, 1));
}

#[test]
fn days_to_ymd_far_future_year_wraps_to_32_bits() {
    // The largest day count that a u64 timestamp reaches.
    let days = u64::MAX / 86400;
    let (y, m, d) = days_to_ymd(days);
    assert!((1..=12).contains(&m) && (1..=31).contains(&d));
    let (y2, _, _) = days_to_ymd(days - 146097);
    assert_eq!(y.wrapping_sub(y2), 400);
}

#[test]
fn root_hex_is_little_endian_per_word() {
    assert_eq!(root_hex(&[0x04030201, 0xdeadbeef]), "01020304efbeadde");
    assert_eq!(root_hex(&[0u32; 7]).len(), 56);
    assert_eq!(root_hex(&[]), "");
}

#[test]
fn snapshot_list_lines_table() {
    assert_eq!(snapshot_list_lines(&vec![]), vec!["No snapshots found.".to_string()]);
    let snaps = vec![
        info(1, Some("snap-1"), 1704067200, [0x04030201, 0, 0, 0, 0, 0, 0]),
        info(2, None, 0, [0xffffffff; 7]),
    ];
    let lines = snapshot_list_lines(&snaps);
    let expected = vec![
        format!("{:<8} {:<20} {:<22} Root", "Version", "Name", "Created"),
        "-".repeat(80),
        format!("{:<8} {:<20} {:<22} {}...", 1, "snap-1", "2024-01-01T00:00:00Z", "0102030400000000"),
        format!("{:<8} {:<20} {:<22} {}...", 2, "-", "unknown", "ffffffffffffffff"),
        String::new(),
        "2 snapshot(s) total.".to_string(),
    ];
    assert_eq!(lines, expected);
}

fn finish(n: SnapshotNext) -> Result<Vec<String>, String> {
    match n {
        SnapshotNext::Finish(r) => r,
        SnapshotNext::Work(_) => panic!("expected the flow to finish"),
    }
}

#[test]
fn test_snapshot_create_refuses_mounted_store() {
    let action = SnapshotAction::Create { store: "/s".to_string(), name: None };
    assert!(matches!(run_snapshot(&action, SnapshotEvent::Start), SnapshotNext::Work(SnapshotWork::CheckMountLock)));
    let r = finish(run_snapshot(
        &action,
        SnapshotEvent::MountLock { present: true, lock_path: "/s/mount.lock".to_string() },
    ));
    assert!(r.is_err(), "should reject mounted store");
    let e = r.unwrap_err();
    assert!(e.contains("mount.lock"));
    assert_eq!(e, "Store is mounted (mount.lock found at /s/mount.lock). Unmount first before creating snapshots.");
}

#[test]
fn test_snapshot_switch_refuses_mounted_store() {
    let action = SnapshotAction::Switch { store: "/s".to_string(), version_or_name: "1".to_string() };
    let r = finish(run_snapshot(
        &action,
        SnapshotEvent::MountLock { present: true, lock_path: "/s/mount.lock".to_string() },
    ));
    let e = r.unwrap_err();
    assert!(e.contains("mount.lock"));
    assert!(e.ends_with("Unmount first before switching snapshots."));
}

#[test]
fn test_snapshot_switch_unknown_ref_fails() {
    let action = SnapshotAction::Switch { store: "/s".to_string(), version_or_name: "nonexistent".to_string() };
    let r = finish(run_snapshot(&action, SnapshotEvent::TargetMissing));
    assert!(r.is_err(), "should fail for unknown snapshot ref");
    let e = r.unwrap_err();
    assert!(e.contains("not found"));
    assert_eq!(e, "snapshot not found: nonexistent");
}

#[test]
fn snapshot_create_flow() {
    let action = SnapshotAction::Create { store: "/s".to_string(), name: Some("v1.0".to_string()) };
    assert!(matches!(
        run_snapshot(&action, SnapshotEvent::MountLock { present: false, lock_path: "/s/mount.lock".to_string() }),
        SnapshotNext::Work(SnapshotWork::LoadSegments)
    ));
    match run_snapshot(
        &action,
        SnapshotEvent::Segments { has_root: true, snapshots: vec![], segments_dir: "/s/segments".to_string() },
    ) {
        SnapshotNext::Work(SnapshotWork::CreateSnapshot { name }) => assert_eq!(name.as_deref(), Some("v1.0")),
        _ => panic!("expected CreateSnapshot"),
    }
    let r = finish(run_snapshot(
        &action,
        SnapshotEvent::Segments { has_root: false, snapshots: vec![], segments_dir: "/s/segments".to_string() },
    ));
    assert_eq!(r.unwrap_err(), "no committed state found in segments at /s/segments");
    let r = finish(run_snapshot(&action, SnapshotEvent::Created { version: 3, root: [1, 0, 0, 0, 0, 0, 0] }));
    assert_eq!(
        r.unwrap(),
        vec![format!("Snapshot 3 created (root: 01000000{})", "0".repeat(48))]
    );
    let r = finish(run_snapshot(&action, SnapshotEvent::SegmentsFailed { message: "bad".to_string() }));
    assert_eq!(r.unwrap_err(), "failed to load segments: bad");
}

#[test]
fn snapshot_list_flow_checks_the_lock_first() {
    let action = SnapshotAction::List { store: "/s".to_string() };
    assert!(matches!(run_snapshot(&action, SnapshotEvent::Start), SnapshotNext::Work(SnapshotWork::CheckMountLock)));
    assert!(matches!(
        run_snapshot(&action, SnapshotEvent::MountLock { present: false, lock_path: "/s/mount.lock".to_string() }),
        SnapshotNext::Work(SnapshotWork::LoadSegments)
    ));
    let r = finish(run_snapshot(
        &action,
        SnapshotEvent::Segments { has_root: false, snapshots: vec![], segments_dir: "/s/segments".to_string() },
    ));
    assert_eq!(r.unwrap(), vec!["No snapshots found.".to_string()]);
}

#[test]
fn snapshot_list_refuses_mounted_store() {
    let action = SnapshotAction::List { store: "/s".to_string() };
    let r = finish(run_snapshot(
        &action,
        SnapshotEvent::MountLock { present: true, lock_path: "/s/mount.lock".to_string() },
    ));
    assert_eq!(
        r.unwrap_err(),
        "Store is mounted (mount.lock found at /s/mount.lock). Unmount first before listing snapshots."
    );
}

#[test]
fn snapshot_switch_flow() {
    let action = SnapshotAction::Switch { store: "/s".to_string(), version_or_name: "snap-1".to_string() };
    match run_snapshot(
        &action,
        SnapshotEvent::Segments { has_root: true, snapshots: vec![], segments_dir: "/s/segments".to_string() },
    ) {
        SnapshotNext::Work(SnapshotWork::SwitchTo { target }) => assert_eq!(target, "snap-1"),
        _ => panic!("expected SwitchTo"),
    }
    let r = finish(run_snapshot(&action, SnapshotEvent::Switched { target_version: 1, auto_version: 2 }));
    assert_eq!(r.unwrap(), vec!["Switched to snapshot 1 (auto-snapshot 2 saved)".to_string()]);
    let r = finish(run_snapshot(&action, SnapshotEvent::Failed { message: "WAL shutdown failed: x".to_string() }));
    assert_eq!(r.unwrap_err(), "WAL shutdown failed: x");
}

/// Runs the flow to its end, answering each piece of work as a store would:
/// `lock`, then the segment replay, then creation or switching.
fn run_whole(
    action: &SnapshotAction,
    lock: bool,
    segments: Result<bool, String>,
    switched: Result<Option<(u64, u64)>, String>,
) -> (Vec<&'static str>, Result<Vec<String>, String>) {
    let mut steps = Vec::new();
    let mut event = SnapshotEvent::Start;
    loop {
        match run_snapshot(action, event) {
            SnapshotNext::Finish(r) => return (steps, r),
            SnapshotNext::Work(w) => {
                event = match w {
                    SnapshotWork::CheckMountLock => {
                        steps.push("lock");
                        SnapshotEvent::MountLock { present: lock, lock_path: "/s/mount.lock".to_string() }
                    }
                    SnapshotWork::LoadSegments => {
                        steps.push("segments");
                        match &segments {
                            Ok(has_root) => SnapshotEvent::Segments {
                                has_root: *has_root,
                                snapshots: vec![info(1, Some("a"), 0, [0; 7])],
                                segments_dir: "/s/segments".to_string(),
                            },
                            Err(m) => SnapshotEvent::SegmentsFailed { message: m.clone() },
                        }
                    }
                    SnapshotWork::CreateSnapshot { .. } => {
                        steps.push("create");
                        SnapshotEvent::Created { version: 4, root: [0; 7] }
                    }
                    SnapshotWork::SwitchTo { .. } => {
                        steps.push("switch");
                        match &switched {
                            Ok(Some((t, a))) => SnapshotEvent::Switched { target_version: *t, auto_version: *a },
                            Ok(None) => SnapshotEvent::TargetMissing,
                            Err(m) => SnapshotEvent::Failed { message: m.clone() },
                        }
                    }
                };
            }
        }
    }
}

#[test]
fn whole_snapshot_runs_match_the_commands() {
    let create = SnapshotAction::Create { store: "/s".to_string(), name: None };
    let (steps, r) = run_whole(&create, false, Ok(true), Ok(None));
    assert_eq!(steps, vec!["lock", "segments", "create"]);
    assert_eq!(r.unwrap(), vec![format!("Snapshot 4 created (root: {})", "0".repeat(56))]);
    let (steps, r) = run_whole(&create, true, Ok(true), Ok(None));
    assert_eq!(steps, vec!["lock"]);
    assert!(r.unwrap_err().contains("mount.lock"));

    let list = SnapshotAction::List { store: "/s".to_string() };
    let (steps, r) = run_whole(&list, true, Ok(true), Ok(None));
    assert_eq!(steps, vec!["lock"]);
    assert!(r.unwrap_err().contains("mount.lock"));
    let (steps, r) = run_whole(&list, false, Ok(true), Ok(None));
    assert_eq!(steps, vec!["lock", "segments"]);
    assert_eq!(r.unwrap(), snapshot_list_lines(&vec![info(1, Some("a"), 0, [0; 7])]));

    let switch = SnapshotAction::Switch { store: "/s".to_string(), version_or_name: "x".to_string() };
    let (steps, r) = run_whole(&switch, false, Ok(true), Ok(None));
    assert_eq!(steps, vec!["lock", "segments", "switch"]);
    assert_eq!(r.unwrap_err(), "snapshot not found: x");
    let (steps, r) = run_whole(&switch, false, Ok(false), Ok(Some((1, 2))));
    assert_eq!(steps, vec!["lock", "segments"]);
    assert_eq!(r.unwrap_err(), "no committed state found in segments at /s/segments");
    let (_, r) = run_whole(&switch, false, Ok(true), Ok(Some((1, 2))));
    assert_eq!(r.unwrap(), vec!["Switched to snapshot 1 (auto-snapshot 2 saved)".to_string()]);
    let (steps, r) = run_whole(&switch, false, Err("bad".to_string()), Ok(None));
    assert_eq!(steps, vec!["lock", "segments"]);
    assert_eq!(r.unwrap_err(), "failed to load segments: bad");
}

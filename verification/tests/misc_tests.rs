use slicefs_cli::cli::{Cli, Cmd};
use slicefs_cli::maintenance::{
    backup_name, does_not_exist, gc_mounted_message, gc_summary_line, missing_cas_message,
    recover_ok_line, recover_ok_text, reindex_check, restore_after_failed_recover, seeded_dir_mode,
    seeded_file_mode,
};
use slicefs_cli::report::{command_name, error_line, exit_code};
use slicefs_cli::unmount::{
    force_unmount_commands, pids_from_lsof, run_unmount, soft_unmount_commands, UnmountEvent,
    UnmountNext, UnmountWork,
};
use slicefs_cli::util::{format_clock, ts};

#[test]
fn clock_text_and_ts_shape() {
    assert_eq!(format_clock(0, 0), "00:00:00.000");
    assert_eq!(format_clock(86399, 999), "23:59:59.999");
    assert_eq!(format_clock(90061, 7), "01:01:01.007");
    let t = ts();
    assert_eq!(t.len(), 12);
    assert_eq!(&t[2..3], ":");
    assert_eq!(&t[8..9], ".");
}

#[test]
fn lsof_pids_skip_header_and_bad_lines() {
    let out = "COMMAND   PID USER   FD   TYPE\nbash     1234 me  cwd    DIR\nvim\t 99 me txt REG\r\nx y z\n\nsh -5 me\nsh 2147483648 me\n";
    assert_eq!(pids_from_lsof(out), vec![1234, 99, -5]);
    assert!(pids_from_lsof("").is_empty());
    assert!(pids_from_lsof("COMMAND PID\n").is_empty());
    assert_eq!(pids_from_lsof("H\nc +42"), vec![42]);
}

#[test]
fn unmount_commands() {
    let soft = soft_unmount_commands("/mnt/x");
    let v: Vec<(String, Vec<String>)> = soft.into_iter().map(|c| (c.program, c.args)).collect();
    assert_eq!(
        v,
        vec![
            ("fusermount3".to_string(), vec!["-u".to_string(), "/mnt/x".to_string()]),
            ("fusermount".to_string(), vec!["-u".to_string(), "/mnt/x".to_string()]),
            ("umount".to_string(), vec!["/mnt/x".to_string()]),
        ]
    );
    let mac: Vec<(String, Vec<String>)> =
        force_unmount_commands("/m", true).into_iter().map(|c| (c.program, c.args)).collect();
    assert_eq!(mac[0].0, "diskutil");
    assert_eq!(mac[0].1, vec!["unmount", "force", "/m"]);
    assert_eq!(mac[1].1, vec!["-f", "/m"]);
    let linux: Vec<(String, Vec<String>)> =
        force_unmount_commands("/m", false).into_iter().map(|c| (c.program, c.args)).collect();
    assert_eq!(linux.len(), 3);
    assert_eq!(linux[2], ("umount".to_string(), vec!["-l".to_string(), "/m".to_string()]));
}

#[test]
fn test_run_unmount_nonexistent_path_returns_error() {
    let mp = "/nonexistent/path/that/cannot/be/a/mountpoint";
    assert!(matches!(run_unmount(mp, UnmountEvent::Start), UnmountNext::Work(UnmountWork::SoftUnmount)));
    assert!(matches!(
        run_unmount(mp, UnmountEvent::SoftUnmounted(false)),
        UnmountNext::Work(UnmountWork::KillProcesses)
    ));
    assert!(matches!(
        run_unmount(mp, UnmountEvent::ProcessesKilled),
        UnmountNext::Work(UnmountWork::ForceUnmount)
    ));
    match run_unmount(mp, UnmountEvent::ForceUnmounted(false)) {
        UnmountNext::Finish(Err(e)) => assert_eq!(
            e,
            format!("Failed to unmount {}. Try: sudo diskutil unmount force {}", mp, mp)
        ),
        _ => panic!("expected failure"),
    }
    match run_unmount("/m", UnmountEvent::SoftUnmounted(true)) {
        UnmountNext::Finish(Ok(l)) => assert_eq!(l, "Unmounted /m"),
        _ => panic!("expected success"),
    }
    match run_unmount("/m", UnmountEvent::ForceUnmounted(true)) {
        UnmountNext::Finish(Ok(l)) => assert_eq!(l, "Force-unmounted /m"),
        _ => panic!("expected success"),
    }
}

#[test]
fn online_mode_returns_error() {
    let result = reindex_check(false, true, "/tmp/x/cas");
    assert!(result.is_err(), "online reindex must error");
    let msg = result.err().unwrap();
    assert!(msg.contains("v2 feature"), "got: {msg}");
}

#[test]
fn reindex_missing_cas_returns_error() {
    let result = reindex_check(true, false, "/tmp/x/cas");
    assert!(result.is_err(), "missing cas must error");
    let msg = result.err().unwrap();
    assert!(msg.contains("does not exist"), "got: {msg}");
    assert_eq!(msg, format!("{:?} does not exist", std::path::Path::new("/tmp/x/cas")));
    assert_eq!(reindex_check(true, true, "/c"), Ok(()));
}

#[test]
fn dedup_recover_missing_cas_returns_error() {
    assert_eq!(missing_cas_message("/s/cas"), "\"/s/cas\" does not exist");
}

#[test]
fn dedup_recover_decisions() {
    assert_eq!(backup_name(1700000000), "index.redb.bak.1700000000");
    assert!(restore_after_failed_recover(true, true));
    assert!(!restore_after_failed_recover(true, false));
    assert!(!restore_after_failed_recover(false, true));
    assert_eq!(recover_ok_line(true, "/c/b", "/c"), "recover ok; backup retained at \"/c/b\"");
    assert_eq!(recover_ok_line(false, "/c/b", "/c"), "recover ok: \"/c\" (no prior index to back up)");
}

#[test]
fn gc_and_seed_texts() {
    assert_eq!(
        gc_mounted_message("/s/mount.lock"),
        "Store is mounted (mount.lock found at /s/mount.lock). Unmount first or use background GC."
    );
    assert_eq!(gc_summary_line(10, 2, 1), "GC complete: scanned 10 entries, removed 2, compacted 1 segments");
    assert_eq!(seeded_file_mode(0o100644), 0o100644);
    assert_eq!(seeded_file_mode(0o4755), 0o104755);
    assert_eq!(seeded_dir_mode(0o40700), 0o040700);
}

#[test]
fn error_reporting() {
    let online = Cmd::Reindex { store: "/d".to_string(), offline: false };
    assert_eq!(exit_code(&online), 2);
    assert_eq!(command_name(&online), "reindex");
    let cli = Cli::try_parse_from(&["slicefs", "dedup-recover", "--store", "/d"]).unwrap();
    assert_eq!(command_name(&cli.command), "dedup-recover");
    assert_eq!(exit_code(&cli.command), 1);
    assert_eq!(error_line("gc", false, "boom"), "slicefs gc error: boom");
    assert_eq!(error_line("gc", true, "boom"), "{\"error\": \"boom\"}");
}

#[test]
fn quoted_path_messages() {
    assert_eq!(does_not_exist("\"/s/cas\""), "\"/s/cas\" does not exist");
    assert_eq!(
        recover_ok_text(true, "\"/s/index.redb.bak.7\""),
        "recover ok; backup retained at \"/s/index.redb.bak.7\""
    );
    assert_eq!(
        recover_ok_text(false, "\"/s/index\""),
        "recover ok: \"/s/index\" (no prior index to back up)"
    );
}

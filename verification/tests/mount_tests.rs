use slicefs_cli::backend::FuseTBackend;
use slicefs_cli::mount::{
    build_mount_options, build_snapshot_mount_options, check_mountpoint_not_in_use,
    check_store_layout, inject_backend_into_ini, next_segment_id, parse_wal_config, segment_id,
    segment_ids_exhausted, snapshot_mount_line, MountOpt, SessionAcl, WalStrategy,
};

fn names(list: &[&str]) -> Vec<String> {
    list.iter().map(|s| s.to_string()).collect()
}

// ── inject_backend_into_ini ──────────────────────────────────────────────────

#[test]
fn test_inject_backend_replaces_existing() {
    let ini = "[Default]\nbackend=nfs\nfoo=bar\n";
    let result = inject_backend_into_ini(ini, "smb");
    assert!(result.contains("backend=smb"), "should replace backend=nfs with backend=smb");
    assert!(!result.contains("backend=nfs"), "old backend line should be gone");
    assert!(result.contains("foo=bar"), "unrelated keys should be preserved");
}

#[test]
fn test_inject_backend_adds_when_absent() {
    let ini = "[Default]\nfoo=bar\n";
    let result = inject_backend_into_ini(ini, "smb");
    assert!(result.contains("backend=smb"), "should add backend=smb entry");
    assert!(result.contains("foo=bar"), "unrelated keys should be preserved");
}

#[test]
fn test_inject_backend_creates_section_when_missing() {
    let ini = "[Other]\nfoo=bar\n";
    let result = inject_backend_into_ini(ini, "fskit");
    assert!(result.contains("backend=fskit"), "should add [Default] section with backend=fskit");
    assert!(result.contains("[Default]"), "should add [Default] section header");
}

#[test]
fn test_inject_backend_empty_ini() {
    let result = inject_backend_into_ini("", "smb");
    assert!(result.contains("backend=smb"), "should handle empty ini");
    assert!(result.contains("[Default]"), "should add [Default] section");
}

#[test]
fn test_inject_backend_multiple_sections_injects_in_default_only() {
    let ini = "[Other]\nkey=val\n[Default]\nbackend=nfs\n[Third]\nanother=one\n";
    let result = inject_backend_into_ini(ini, "smb");
    assert!(result.contains("backend=smb"), "should inject backend=smb");
    assert!(!result.contains("backend=nfs"), "should not keep old backend=nfs");
    assert!(result.contains("[Other]"), "should preserve other sections");
    assert!(result.contains("[Third]"), "should preserve third section");
}

#[test]
fn test_inject_backend_fskit_into_empty_ini() {
    let result = inject_backend_into_ini("", "fskit");
    assert!(result.contains("backend=fskit"), "should add backend=fskit to empty ini");
    assert!(result.contains("[Default]"), "should add [Default] section");
}

#[test]
fn test_inject_backend_nfs_backend() {
    let ini = "[Default]\nbackend=smb\n";
    let result = inject_backend_into_ini(ini, "nfs");
    assert!(result.contains("backend=nfs"), "should replace with backend=nfs");
    assert!(!result.contains("backend=smb"), "old backend=smb should be removed");
}

#[test]
fn test_inject_backend_default_section_without_backend_key() {
    let ini = "[Default]\nother_key=other_val\n";
    let result = inject_backend_into_ini(ini, "fskit");
    assert!(result.contains("backend=fskit"), "should inject backend=fskit");
    assert!(result.contains("other_key=other_val"), "should preserve existing keys");
}

#[test]
fn inject_backend_exact_outputs() {
    assert_eq!(inject_backend_into_ini("", "smb"), "[Default]\nbackend=smb\n");
    assert_eq!(
        inject_backend_into_ini("[Default]\nbackend=nfs\nfoo=bar\n", "smb"),
        "[Default]\nbackend=smb\nfoo=bar\n"
    );
}

// ── next_segment_id (directory listing given as names) ───────────────────────

#[test]
fn test_next_segment_id_empty_dir_returns_1() {
    assert_eq!(next_segment_id(&names(&[])), 1, "empty dir should return segment id 1");
}

#[test]
fn test_next_segment_id_with_single_segment() {
    assert_eq!(next_segment_id(&names(&["segment-000005.seg"])), 6, "next id after segment 5 should be 6");
}

#[test]
fn test_next_segment_id_with_multiple_segments() {
    let id = next_segment_id(&names(&["segment-000001.seg", "segment-000002.seg", "segment-000042.seg"]));
    assert_eq!(id, 43, "next id should be max + 1");
}

#[test]
fn test_next_segment_id_ignores_non_segment_files() {
    let id = next_segment_id(&names(&["mount.lock", "dictionary.bin", "segment-000003.seg"]));
    assert_eq!(id, 4, "should ignore non-segment files");
}

#[test]
fn test_next_segment_id_nonexistent_dir_returns_1() {
    assert_eq!(next_segment_id(&Vec::new()), 1, "nonexistent dir should return 1");
}

#[test]
fn test_next_segment_id_only_malformed_files_returns_1() {
    let id = next_segment_id(&names(&["segment-abc.seg", "segment-.seg", "notsegment-000001.seg"]));
    assert_eq!(id, 1, "malformed segment files should be ignored");
}

#[test]
fn segment_id_parsing_and_exhaustion() {
    assert_eq!(segment_id("segment-000042.seg"), Some(42));
    assert_eq!(segment_id("segment-18446744073709551615.seg"), Some(u64::MAX));
    assert_eq!(segment_id("segment-18446744073709551616.seg"), None);
    assert!(segment_ids_exhausted(&names(&["segment-18446744073709551615.seg"])));
    assert!(!segment_ids_exhausted(&names(&["segment-000001.seg"])));
}

// ── parse_wal_config ─────────────────────────────────────────────────────────

#[test]
fn test_parse_wal_config_defaults_to_per_op() {
    assert!(matches!(parse_wal_config(None), WalStrategy::PerOp));
    assert!(matches!(parse_wal_config(Some("per-op")), WalStrategy::PerOp));
}

#[test]
fn test_parse_wal_config_flush_on_fsync() {
    assert!(matches!(parse_wal_config(Some("flush-on-fsync")), WalStrategy::FlushOnFsync));
}

#[test]
fn test_parse_wal_config_no_wal() {
    assert!(matches!(parse_wal_config(Some("no-wal")), WalStrategy::NoWal));
}

#[test]
fn test_parse_wal_config_periodic() {
    assert!(matches!(parse_wal_config(Some("periodic")), WalStrategy::Periodic { .. }));
}

#[test]
fn test_parse_wal_config_unknown_defaults_to_per_op() {
    assert!(matches!(parse_wal_config(Some("invalid-strategy")), WalStrategy::PerOp));
    assert!(matches!(parse_wal_config(Some("FLUSH-ON-FSYNC")), WalStrategy::PerOp));
    assert!(matches!(parse_wal_config(Some("")), WalStrategy::PerOp));
}

#[test]
fn periodic_wal_flushes_every_five_seconds() {
    assert_eq!(parse_wal_config(Some("periodic")), WalStrategy::Periodic { interval_secs: 5 });
}

// ── build_mount_options (Linux unless stated) ───────────────────────────────

#[test]
fn test_build_mount_options_with_noatime() {
    let config = build_mount_options(true, false, false, None);
    assert!(!config.mount_options.contains(&MountOpt::ReadOnly), "RO must NOT be present (mount is read-write)");
    assert!(config.mount_options.contains(&MountOpt::NoAtime), "NoAtime must be present when noatime=true");
    assert!(
        config.mount_options.contains(&MountOpt::DefaultPermissions),
        "DefaultPermissions must always be present"
    );
}

#[test]
fn test_build_mount_options_without_noatime() {
    let config = build_mount_options(false, false, false, None);
    assert!(!config.mount_options.contains(&MountOpt::ReadOnly), "RO must NOT be present (mount is read-write)");
    assert!(!config.mount_options.contains(&MountOpt::NoAtime), "NoAtime must NOT be present when noatime=false");
    assert!(
        config.mount_options.contains(&MountOpt::DefaultPermissions),
        "DefaultPermissions must always be present"
    );
}

#[test]
fn test_build_mount_options_no_direct_io() {
    let config = build_mount_options(false, false, true, None);
    assert!(
        !config.mount_options.contains(&MountOpt::Custom("direct_io".to_string())),
        "CUSTOM(direct_io) must NOT be present — breaks FUSE-T write forwarding"
    );
}

#[test]
fn test_build_mount_options_allow_other() {
    let config = build_mount_options(false, true, false, None);
    assert!(matches!(config.acl, SessionAcl::All), "SessionACL must be All when allow_other=true");
}

#[test]
fn test_build_mount_options_no_allow_other() {
    let config = build_mount_options(false, false, false, None);
    assert!(matches!(config.acl, SessionAcl::Owner), "SessionACL must be Owner when allow_other=false");
}

#[test]
fn test_build_mount_options_with_backend_smb() {
    let config = build_mount_options(false, false, true, Some(FuseTBackend::Smb));
    assert!(
        config.mount_options.contains(&MountOpt::Custom("backend=smb".to_string())),
        "CUSTOM(backend=smb) must be present for libfuse-t to use SMB backend"
    );
}

#[test]
fn test_build_mount_options_noatime_and_allow_other() {
    let config = build_mount_options(true, true, false, None);
    assert!(config.mount_options.contains(&MountOpt::NoAtime));
    assert!(matches!(config.acl, SessionAcl::All));
}

#[test]
fn test_build_mount_options_always_has_fsname() {
    let config = build_mount_options(false, false, false, None);
    let has_fsname = config
        .mount_options
        .iter()
        .any(|opt| matches!(opt, MountOpt::FsName(s) if s == "slicefs"));
    assert!(has_fsname, "FSName(slicefs) must always be present");
}

#[test]
fn test_build_mount_options_noappledouble_present_on_macos() {
    let config = build_mount_options(false, false, true, None);
    let has_noappledouble = config
        .mount_options
        .iter()
        .any(|opt| matches!(opt, MountOpt::Custom(s) if s == "noappledouble"));
    assert!(has_noappledouble, "noappledouble must be present on macOS");
}

#[test]
fn test_build_mount_options_with_backend_fskit() {
    let config = build_mount_options(false, false, true, Some(FuseTBackend::Fskit));
    assert!(
        config.mount_options.contains(&MountOpt::Custom("backend=fskit".to_string())),
        "CUSTOM(backend=fskit) must be present"
    );
}

#[test]
fn test_build_mount_options_with_backend_nfs() {
    let config = build_mount_options(false, false, true, Some(FuseTBackend::Nfs));
    assert!(
        config.mount_options.contains(&MountOpt::Custom("backend=nfs".to_string())),
        "CUSTOM(backend=nfs) must be present"
    );
}

#[test]
fn snapshot_mount_is_read_only_and_exact_order() {
    let config = build_snapshot_mount_options(true, false, false);
    assert_eq!(
        config.mount_options,
        vec![
            MountOpt::FsName("slicefs".to_string()),
            MountOpt::DefaultPermissions,
            MountOpt::NoAtime,
            MountOpt::ReadOnly
        ]
    );
    assert_eq!(snapshot_mount_line(4), "Mounting snapshot 4 (read-only)");
}

// ── store layout and mountpoint guard ───────────────────────────────────────

#[test]
fn test_load_store_rejects_missing_store() {
    let result = check_store_layout("/tmp/empty", false, false);
    assert!(result.is_err(), "should fail with missing store");
    let msg = result.err().unwrap();
    assert!(
        msg.contains("segments/") || msg.contains("store not found"),
        "error should mention segments/, got: {}",
        msg
    );
}

#[test]
fn test_load_store_rejects_legacy_format() {
    let result = check_store_layout("/tmp/old", true, true);
    assert!(result.is_err(), "should reject legacy format");
    let msg = result.err().unwrap();
    assert!(msg.contains("Re-seed required") || msg.contains("legacy"), "error should mention re-seed, got: {}", msg);
}

#[test]
fn store_layout_messages_exact() {
    assert_eq!(
        check_store_layout("/s", true, false).unwrap_err(),
        "legacy store format detected at /s. Re-seed required: slicefs seed <store> <source>"
    );
    assert_eq!(check_store_layout("/s", false, false).unwrap_err(), "store not found at /s: no segments/ directory");
    assert_eq!(check_store_layout("/s", false, true), Ok(()));
}

#[test]
fn mountpoint_in_use_is_refused() {
    let table = "/dev/disk1 on / (apfs)\nfuse-t:/slicefs on /Volumes/x (nfs, nodev)\n";
    assert!(check_mountpoint_not_in_use(table, "/Volumes/x", "/Volumes/x").is_err());
    assert_eq!(check_mountpoint_not_in_use(table, "/Volumes/y", "/Volumes/y"), Ok(()));
}

#[test]
fn injection_is_idempotent() {
    for ini in [
        "",
        "[Default]\nbackend=smb\nfoo=1\n",
        "[Other]\nx=1",
        "  [default] \n foo=2\n[Other]\nbackend=nfs\n",
        "[Default]\n",
    ] {
        let once = inject_backend_into_ini(ini, "fskit");
        assert_eq!(inject_backend_into_ini(&once, "fskit"), once, "input {:?}", ini);
    }
}

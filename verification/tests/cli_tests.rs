use std::path::PathBuf;

use slicefs_cli::cli::{Cli, CliError, Cmd, SnapshotAction};

#[test]
fn test_mount_basic() {
    let cli = Cli::try_parse_from(&["slicefs", "mount", "/mnt", "--store", "/data"]).unwrap();
    match cli.command {
        Cmd::Mount { mountpoint, store, .. } => {
            assert_eq!(PathBuf::from(mountpoint), PathBuf::from("/mnt"));
            assert_eq!(PathBuf::from(store), PathBuf::from("/data"));
        }
        _ => panic!("expected Mount"),
    }
}

#[test]
fn test_unmount() {
    let cli = Cli::try_parse_from(&["slicefs", "unmount", "/mnt"]).unwrap();
    match cli.command {
        Cmd::Unmount { mountpoint, .. } => {
            assert_eq!(PathBuf::from(mountpoint), PathBuf::from("/mnt"));
        }
        _ => panic!("expected Unmount"),
    }
}

#[test]
fn test_seed() {
    let cli = Cli::try_parse_from(&["slicefs", "seed", "/data", "/src"]).unwrap();
    match cli.command {
        Cmd::Seed { store, source_dir } => {
            assert_eq!(PathBuf::from(store), PathBuf::from("/data"));
            assert_eq!(PathBuf::from(source_dir), PathBuf::from("/src"));
        }
        _ => panic!("expected Seed"),
    }
}

#[test]
fn test_mount_extra_options() {
    let cli = Cli::try_parse_from(&[
        "slicefs",
        "mount",
        "/mnt",
        "--store",
        "/data",
        "--noatime",
        "--cache-size",
        "1048576",
    ])
    .unwrap();
    match cli.command {
        Cmd::Mount { mountpoint, store, noatime, cache_size, .. } => {
            assert_eq!(PathBuf::from(mountpoint), PathBuf::from("/mnt"));
            assert_eq!(PathBuf::from(store), PathBuf::from("/data"));
            assert!(noatime);
            assert_eq!(cache_size, 1048576);
        }
        _ => panic!("expected Mount"),
    }
}

#[test]
fn test_snapshot_create_no_name() {
    let cli = Cli::try_parse_from(&["slicefs", "snapshot", "create", "/data"]).unwrap();
    match cli.command {
        Cmd::Snapshot { action: SnapshotAction::Create { store, name } } => {
            assert_eq!(PathBuf::from(store), PathBuf::from("/data"));
            assert!(name.is_none());
        }
        _ => panic!("expected Snapshot::Create"),
    }
}

#[test]
fn test_snapshot_create_with_name() {
    let cli = Cli::try_parse_from(&["slicefs", "snapshot", "create", "/data", "--name", "release-1.0"])
        .unwrap();
    match cli.command {
        Cmd::Snapshot { action: SnapshotAction::Create { store, name } } => {
            assert_eq!(PathBuf::from(store), PathBuf::from("/data"));
            assert_eq!(name.as_deref(), Some("release-1.0"));
        }
        _ => panic!("expected Snapshot::Create with name"),
    }
}

#[test]
fn test_snapshot_list() {
    let cli = Cli::try_parse_from(&["slicefs", "snapshot", "list", "/data"]).unwrap();
    match cli.command {
        Cmd::Snapshot { action: SnapshotAction::List { store } } => {
            assert_eq!(PathBuf::from(store), PathBuf::from("/data"));
        }
        _ => panic!("expected Snapshot::List"),
    }
}

#[test]
fn cli_test_snapshot_switch_by_version() {
    let cli = Cli::try_parse_from(&["slicefs", "snapshot", "switch", "/data", "3"]).unwrap();
    match cli.command {
        Cmd::Snapshot { action: SnapshotAction::Switch { store, version_or_name } } => {
            assert_eq!(PathBuf::from(store), PathBuf::from("/data"));
            assert_eq!(version_or_name, "3");
        }
        _ => panic!("expected Snapshot::Switch"),
    }
}

#[test]
fn cli_test_snapshot_switch_by_name() {
    let cli = Cli::try_parse_from(&["slicefs", "snapshot", "switch", "/data", "release-1.0"]).unwrap();
    match cli.command {
        Cmd::Snapshot { action: SnapshotAction::Switch { store, version_or_name } } => {
            assert_eq!(PathBuf::from(store), PathBuf::from("/data"));
            assert_eq!(version_or_name, "release-1.0");
        }
        _ => panic!("expected Snapshot::Switch by name"),
    }
}

#[test]
fn test_mount_with_snapshot_flag() {
    let cli = Cli::try_parse_from(&["slicefs", "mount", "/mnt", "--store", "/data", "--snapshot", "3"])
        .unwrap();
    match cli.command {
        Cmd::Mount { snapshot, auto_snapshot, .. } => {
            assert_eq!(snapshot.as_deref(), Some("3"));
            assert!(!auto_snapshot);
        }
        _ => panic!("expected Mount with --snapshot"),
    }
}

#[test]
fn test_mount_with_auto_snapshot_flag() {
    let cli = Cli::try_parse_from(&["slicefs", "mount", "/mnt", "--store", "/data", "--auto-snapshot"])
        .unwrap();
    match cli.command {
        Cmd::Mount { snapshot, auto_snapshot, .. } => {
            assert!(snapshot.is_none());
            assert!(auto_snapshot);
        }
        _ => panic!("expected Mount with --auto-snapshot"),
    }
}

#[test]
fn test_mount_default_compressor_is_zstd() {
    let cli = Cli::try_parse_from(&["slicefs", "mount", "/mnt", "--store", "/data"]).unwrap();
    match cli.command {
        Cmd::Mount { compressor, compressor_level, .. } => {
            assert_eq!(compressor, "zstd", "default compressor should be zstd");
            assert!(compressor_level.is_none(), "default level should be None");
        }
        _ => panic!("expected Mount"),
    }
}

#[test]
fn test_mount_compressor_lz4() {
    let cli = Cli::try_parse_from(&["slicefs", "mount", "/mnt", "--store", "/data", "--compressor", "lz4"])
        .unwrap();
    match cli.command {
        Cmd::Mount { compressor, .. } => {
            assert_eq!(compressor, "lz4");
        }
        _ => panic!("expected Mount"),
    }
}

#[test]
fn test_mount_compressor_none() {
    let cli = Cli::try_parse_from(&["slicefs", "mount", "/mnt", "--store", "/data", "--compressor", "none"])
        .unwrap();
    match cli.command {
        Cmd::Mount { compressor, .. } => {
            assert_eq!(compressor, "none");
        }
        _ => panic!("expected Mount"),
    }
}

#[test]
fn test_mount_compressor_zstd_with_level() {
    let cli = Cli::try_parse_from(&[
        "slicefs",
        "mount",
        "/mnt",
        "--store",
        "/data",
        "--compressor",
        "zstd",
        "--compressor-level",
        "9",
    ])
    .unwrap();
    match cli.command {
        Cmd::Mount { compressor, compressor_level, .. } => {
            assert_eq!(compressor, "zstd");
            assert_eq!(compressor_level, Some(9));
        }
        _ => panic!("expected Mount"),
    }
}

#[test]
fn test_stats_subcommand() {
    let cli = Cli::try_parse_from(&["slicefs", "stats", "/data"]).unwrap();
    match cli.command {
        Cmd::Stats { store } => {
            assert_eq!(PathBuf::from(store), PathBuf::from("/data"));
        }
        _ => panic!("expected Stats"),
    }
}

#[test]
fn test_scrub_subcommand() {
    let cli = Cli::try_parse_from(&["slicefs", "scrub", "/data"]).unwrap();
    match cli.command {
        Cmd::Scrub { store } => {
            assert_eq!(PathBuf::from(store), PathBuf::from("/data"));
        }
        _ => panic!("expected Scrub"),
    }
}

#[test]
fn test_json_flag_global() {
    let cli = Cli::try_parse_from(&["slicefs", "--json", "stats", "/data"]).unwrap();
    assert!(cli.json, "expected --json to be true");
    match cli.command {
        Cmd::Stats { store } => {
            assert_eq!(PathBuf::from(store), PathBuf::from("/data"));
        }
        _ => panic!("expected Stats"),
    }
}

#[test]
fn test_json_flag_after_subcommand() {
    let cli = Cli::try_parse_from(&["slicefs", "stats", "--json", "/data"]).unwrap();
    assert!(cli.json, "expected --json to be true");
    match cli.command {
        Cmd::Stats { store } => {
            assert_eq!(PathBuf::from(store), PathBuf::from("/data"));
        }
        _ => panic!("expected Stats after --json"),
    }
}

#[test]
fn test_no_json_flag_default() {
    let cli = Cli::try_parse_from(&["slicefs", "stats", "/data"]).unwrap();
    assert!(!cli.json, "expected --json to default to false");
}

// ── further command lines ───────────────────────────────────────────────────

#[test]
fn cli_unmount_with_store_and_reindex_defaults() {
    let cli = Cli::try_parse_from(&["slicefs", "unmount", "/mnt", "--store", "/data"]).unwrap();
    match cli.command {
        Cmd::Unmount { mountpoint, store } => {
            assert_eq!(mountpoint, "/mnt");
            assert_eq!(store.as_deref(), Some("/data"));
        }
        _ => panic!("expected Unmount"),
    }
    let cli = Cli::try_parse_from(&["slicefs", "reindex", "--store", "/data"]).unwrap();
    match cli.command {
        Cmd::Reindex { store, offline } => {
            assert_eq!(store, "/data");
            assert!(offline);
        }
        _ => panic!("expected Reindex"),
    }
    let cli = Cli::try_parse_from(&["slicefs", "dedup-recover", "--store=/d"]).unwrap();
    match cli.command {
        Cmd::DedupRecover { store } => assert_eq!(store, "/d"),
        _ => panic!("expected DedupRecover"),
    }
}

#[test]
fn cli_errors() {
    assert_eq!(Cli::try_parse_from(&["slicefs"]).unwrap_err(), CliError::MissingSubcommand);
    assert_eq!(Cli::try_parse_from(&["slicefs", "bogus"]).unwrap_err(), CliError::InvalidSubcommand);
    assert_eq!(
        Cli::try_parse_from(&["slicefs", "mount", "/mnt"]).unwrap_err(),
        CliError::MissingRequiredArgument
    );
    assert_eq!(
        Cli::try_parse_from(&["slicefs", "stats", "/a", "/b"]).unwrap_err(),
        CliError::UnexpectedArgument
    );
    assert_eq!(
        Cli::try_parse_from(&["slicefs", "mount", "/mnt", "--store", "/d", "--cache-size", "x"])
            .unwrap_err(),
        CliError::InvalidValue
    );
    assert_eq!(
        Cli::try_parse_from(&["slicefs", "stats", "/d", "--bogus"]).unwrap_err(),
        CliError::UnknownArgument
    );
    assert_eq!(Cli::try_parse_from(&["slicefs", "--help"]).unwrap_err(), CliError::DisplayHelp);
    assert_eq!(Cli::try_parse_from(&["slicefs", "--version"]).unwrap_err(), CliError::DisplayVersion);
    assert_eq!(
        Cli::try_parse_from(&["slicefs", "mount", "/mnt", "--store"]).unwrap_err(),
        CliError::NoValue
    );
    assert_eq!(
        Cli::try_parse_from(&["slicefs", "mount", "/m", "--store", "/a", "--store", "/b"]).unwrap_err(),
        CliError::ArgumentConflict
    );
}

#[test]
fn json_flag_changes_nothing_else() {
    let plain = ["slicefs", "mount", "/mnt", "--store", "/d", "--cache-size", "4096", "--backend", "nfs"];
    let before = ["slicefs", "--json", "mount", "/mnt", "--store", "/d", "--cache-size", "4096", "--backend", "nfs"];
    let after = ["slicefs", "mount", "--json", "/mnt", "--store", "/d", "--cache-size", "4096", "--backend", "nfs"];
    let p = Cli::try_parse_from(&plain).unwrap();
    assert!(!p.json);
    for args in [&before[..], &after[..]] {
        let c = Cli::try_parse_from(args).unwrap();
        assert!(c.json);
        assert_eq!(format!("{:?}", c.command), format!("{:?}", p.command));
    }
    // A refused command line is refused with the same error either way.
    assert_eq!(
        Cli::try_parse_from(&["slicefs", "--json", "stats", "/a", "/b"]).unwrap_err(),
        Cli::try_parse_from(&["slicefs", "stats", "/a", "/b"]).unwrap_err()
    );
    // Given twice, it is a conflict.
    assert_eq!(
        Cli::try_parse_from(&["slicefs", "--json", "stats", "--json", "/a"]).unwrap_err(),
        CliError::ArgumentConflict
    );
}

use slicefs_cli::backend::{
    confirm_fallback, confirm_fallback_with_tty, detect_fuse_t_version, fallback_question,
    fallback_warning, is_fskit_available, macos_version_is_26_or_later, parse_backend_flag,
    parse_libfuse_t_filename, select_backend, select_backend_auto, unknown_backend_error,
    FuseTBackend,
};

fn names(list: &[&str]) -> Vec<String> {
    list.iter().map(|s| s.to_string()).collect()
}

// ── detect_fuse_t_version (directory listing given as names) ─────────────────

#[test]
fn test_detect_version_found() {
    let result = detect_fuse_t_version(&names(&["libfuse-t-1.0.54.dylib"]));
    assert_eq!(result, Some((1, 0, 54)));
}

#[test]
fn test_detect_version_no_dylib_returns_none() {
    let result = detect_fuse_t_version(&names(&[]));
    assert_eq!(result, None);
}

#[test]
fn test_detect_version_multi_digit() {
    let result = detect_fuse_t_version(&names(&["libfuse-t-1.12.3.dylib"]));
    assert_eq!(result, Some((1, 12, 3)));
}

#[test]
fn test_detect_version_nonexistent_dir_returns_none() {
    // A directory that cannot be read lists no names.
    let result = detect_fuse_t_version(&Vec::new());
    assert_eq!(result, None);
}

#[test]
fn test_detect_version_unrelated_files_ignored() {
    let result = detect_fuse_t_version(&names(&["libsomethingelse.dylib", "libfuse-t-bad.dylib"]));
    assert_eq!(result, None);
}

#[test]
fn test_detect_version_with_multiple_dylibs_returns_first_found() {
    let result = detect_fuse_t_version(&names(&["libfuse-t-1.0.40.dylib", "libfuse-t-1.0.54.dylib"]));
    assert!(result.is_some(), "should find at least one version among multiple dylibs");
    let (major, minor, _patch) = result.unwrap();
    assert_eq!(major, 1);
    assert_eq!(minor, 0);
}

#[test]
fn test_detect_version_ignores_partial_match() {
    let result = detect_fuse_t_version(&names(&["libfuse-t-1.0.54.so", "libfuse-t-1.0.54"]));
    assert_eq!(result, None, "wrong suffix should not match");
}

#[test]
fn test_detect_version_zero_components() {
    let result = detect_fuse_t_version(&names(&["libfuse-t-0.0.0.dylib"]));
    assert_eq!(result, Some((0, 0, 0)));
}

#[test]
fn detect_version_takes_the_first_listed_name() {
    let result = detect_fuse_t_version(&names(&["x.txt", "libfuse-t-2.1.0.dylib", "libfuse-t-1.0.0.dylib"]));
    assert_eq!(result, Some((2, 1, 0)));
}

#[test]
fn parse_libfuse_t_filename_rejects_bad_parts() {
    assert_eq!(parse_libfuse_t_filename("libfuse-t-1.0.dylib"), None);
    assert_eq!(parse_libfuse_t_filename("libfuse-t-1.0.0.0.dylib"), None);
    assert_eq!(parse_libfuse_t_filename("libfuse-t-1.0.4294967296.dylib"), None);
    assert_eq!(parse_libfuse_t_filename("libfuse-t-+1.0.7.dylib"), Some((1, 0, 7)));
    assert_eq!(parse_libfuse_t_filename("libfuse-t-1..7.dylib"), None);
}

// ── parse_backend_flag ───────────────────────────────────────────────────────

#[test]
fn test_parse_backend_smb() {
    assert_eq!(parse_backend_flag("smb"), Ok(FuseTBackend::Smb));
}

#[test]
fn test_parse_backend_nfs() {
    assert_eq!(parse_backend_flag("nfs"), Ok(FuseTBackend::Nfs));
}

#[test]
fn test_parse_backend_fskit() {
    assert_eq!(parse_backend_flag("fskit"), Ok(FuseTBackend::Fskit));
}

#[test]
fn test_parse_backend_invalid() {
    assert!(parse_backend_flag("invalid").is_err());
}

#[test]
fn test_parse_backend_flag_uppercase_smb_is_invalid() {
    assert!(parse_backend_flag("SMB").is_err(), "uppercase SMB should be invalid");
}

#[test]
fn test_parse_backend_flag_uppercase_nfs_is_invalid() {
    assert!(parse_backend_flag("NFS").is_err(), "uppercase NFS should be invalid");
}

#[test]
fn test_parse_backend_flag_uppercase_fskit_is_invalid() {
    assert!(parse_backend_flag("FSKIT").is_err(), "uppercase FSKIT should be invalid");
}

#[test]
fn test_parse_backend_flag_empty_string_is_invalid() {
    assert!(parse_backend_flag("").is_err(), "empty string should be invalid");
}

#[test]
fn test_parse_backend_flag_error_message_mentions_valid_values() {
    let err = parse_backend_flag("unknown").unwrap_err();
    assert!(
        err.contains("smb") && err.contains("nfs") && err.contains("fskit"),
        "error should mention valid values, got: {}",
        err
    );
}

#[test]
fn parse_backend_flag_error_message_exact() {
    assert_eq!(
        parse_backend_flag("x\"y").unwrap_err(),
        "unknown backend \"x\\\"y\". Valid values: smb, nfs, fskit"
    );
}

// ── as_mount_option and Debug ────────────────────────────────────────────────

#[test]
fn test_as_mount_option_smb() {
    assert_eq!(FuseTBackend::Smb.as_mount_option(), "backend=smb");
}

#[test]
fn test_as_mount_option_fskit() {
    assert_eq!(FuseTBackend::Fskit.as_mount_option(), "backend=fskit");
}

#[test]
fn test_as_mount_option_nfs() {
    assert_eq!(FuseTBackend::Nfs.as_mount_option(), "backend=nfs");
}

#[test]
fn test_fuse_t_backend_debug_format() {
    assert_eq!(format!("{:?}", FuseTBackend::Smb), "Smb");
    assert_eq!(format!("{:?}", FuseTBackend::Nfs), "Nfs");
    assert_eq!(format!("{:?}", FuseTBackend::Fskit), "Fskit");
}

#[test]
fn backend_name_round_trips_through_flag_and_mount_option() {
    for b in [FuseTBackend::Smb, FuseTBackend::Nfs, FuseTBackend::Fskit] {
        let opt = b.as_mount_option();
        let name = opt.strip_prefix("backend=").unwrap();
        assert_eq!(parse_backend_flag(name), Ok(b));
        assert_eq!(b.debug_name(), format!("{:?}", b));
    }
}

// ── select_backend ───────────────────────────────────────────────────────────

#[test]
fn test_select_backend_auto_fskit_unavailable_returns_nfs() {
    let result = select_backend(None, false, (1, 0, 54), false);
    assert_eq!(result, Ok(FuseTBackend::Nfs));
}

#[test]
fn test_select_backend_auto_defaults_to_nfs_even_with_fskit() {
    let result = select_backend(None, false, (1, 0, 54), true);
    assert_eq!(result, Ok(FuseTBackend::Nfs));
}

#[test]
fn test_select_backend_nfs_explicit_returns_ok() {
    let result = select_backend(Some(FuseTBackend::Nfs), false, (1, 0, 54), false);
    assert_eq!(result, Ok(FuseTBackend::Nfs));
}

#[test]
fn test_select_backend_nfs_with_force_returns_ok() {
    let result = select_backend(Some(FuseTBackend::Nfs), true, (1, 0, 54), false);
    assert_eq!(result, Ok(FuseTBackend::Nfs));
}

#[test]
fn test_select_backend_version_too_old_returns_err() {
    let result = select_backend(None, false, (1, 0, 30), false);
    assert!(result.is_err());
    assert!(result.unwrap_err().contains("too old"));
}

#[test]
fn test_select_backend_fskit_requested_unavailable_returns_err() {
    let result = select_backend(Some(FuseTBackend::Fskit), false, (1, 0, 54), false);
    assert!(result.is_err());
    assert!(result.unwrap_err().contains("FSKit backend not available"));
}

#[test]
fn test_select_backend_fskit_requested_available_returns_ok() {
    let result = select_backend(Some(FuseTBackend::Fskit), false, (1, 0, 54), true);
    assert_eq!(result, Ok(FuseTBackend::Fskit));
}

#[test]
fn test_select_backend_smb_explicit_returns_ok() {
    let result = select_backend(Some(FuseTBackend::Smb), false, (1, 0, 54), false);
    assert_eq!(result, Ok(FuseTBackend::Smb));
}

#[test]
fn test_select_backend_version_exact_minimum_ok() {
    let result = select_backend(None, false, (1, 0, 35), false);
    assert_eq!(result, Ok(FuseTBackend::Nfs));
}

#[test]
fn test_select_backend_version_below_minimum_err() {
    let result = select_backend(None, false, (1, 0, 34), false);
    assert!(result.is_err());
    assert!(result.unwrap_err().contains("too old"));
}

#[test]
fn test_select_backend_version_1_0_0_is_too_old() {
    let result = select_backend(None, false, (1, 0, 0), false);
    assert!(result.is_err());
    assert!(result.unwrap_err().contains("too old"));
}

#[test]
fn test_select_backend_version_0_9_99_is_too_old() {
    let result = select_backend(None, false, (0, 9, 99), false);
    assert!(result.is_err());
    assert!(result.unwrap_err().contains("too old"));
}

#[test]
fn test_select_backend_version_2_0_0_is_ok() {
    let result = select_backend(None, false, (2, 0, 0), false);
    assert!(result.is_ok(), "version 2.0.0 should be accepted");
}

#[test]
fn test_select_backend_fskit_requested_with_fskit_available_ok() {
    let result = select_backend(Some(FuseTBackend::Fskit), false, (1, 2, 0), true);
    assert_eq!(result, Ok(FuseTBackend::Fskit));
}

#[test]
fn test_select_backend_smb_with_old_version_fails() {
    let result = select_backend(Some(FuseTBackend::Smb), false, (1, 0, 10), false);
    assert!(result.is_err(), "SMB on old version should fail version gate");
}

#[test]
fn select_backend_too_old_message_exact() {
    assert_eq!(
        select_backend(None, false, (1, 0, 7), true).unwrap_err(),
        "FUSE-T 1.0.7 is too old. Minimum required: 1.0.35 (for SMB backend support). Please update FUSE-T from https://github.com/macos-fuse-t/fuse-t/releases"
    );
}

#[test]
fn select_backend_auto_without_fuse_t_fails() {
    assert_eq!(
        select_backend_auto(None, false, None, true).unwrap_err(),
        "FUSE-T not found. Install from https://github.com/macos-fuse-t/fuse-t/releases"
    );
    assert_eq!(
        select_backend_auto(Some(FuseTBackend::Smb), false, Some((1, 1, 0)), false),
        Ok((FuseTBackend::Smb, (1, 1, 0)))
    );
}

#[test]
fn fskit_availability_needs_both_conditions() {
    assert!(is_fskit_available(true, true));
    assert!(!is_fskit_available(true, false));
    assert!(!is_fskit_available(false, true));
    assert!(macos_version_is_26_or_later("26.0\n"));
    assert!(macos_version_is_26_or_later("27.1"));
    assert!(!macos_version_is_26_or_later("15.5\n"));
    assert!(!macos_version_is_26_or_later("garbage"));
}

// ── confirm_fallback ─────────────────────────────────────────────────────────

#[test]
fn test_confirm_fallback_interactive_yes() {
    let result = confirm_fallback_with_tty(FuseTBackend::Smb, "y\n", true);
    assert_eq!(result, Ok(FuseTBackend::Smb));
}

#[test]
fn test_confirm_fallback_interactive_yes_default_empty() {
    let result = confirm_fallback_with_tty(FuseTBackend::Smb, "\n", true);
    assert_eq!(result, Ok(FuseTBackend::Smb));
}

#[test]
fn test_confirm_fallback_interactive_no_lowercase() {
    let result = confirm_fallback_with_tty(FuseTBackend::Smb, "n\n", true);
    assert!(result.is_err());
    let err = result.unwrap_err();
    assert!(err.contains("cancelled"), "expected 'cancelled' in: {}", err);
}

#[test]
fn test_confirm_fallback_interactive_no_uppercase() {
    let result = confirm_fallback_with_tty(FuseTBackend::Smb, "N\n", true);
    assert!(result.is_err());
}

#[test]
fn test_confirm_fallback_non_interactive() {
    let result = confirm_fallback_with_tty(FuseTBackend::Smb, "n\n", false);
    assert_eq!(result, Ok(FuseTBackend::Smb));
}

#[test]
fn confirm_fallback_reply_forms() {
    assert_eq!(confirm_fallback(FuseTBackend::Nfs, None), Ok(FuseTBackend::Nfs));
    assert_eq!(
        confirm_fallback(FuseTBackend::Nfs, Some("  n  \r\n")).unwrap_err(),
        "Mount cancelled by user."
    );
    assert_eq!(confirm_fallback(FuseTBackend::Nfs, Some("no")), Ok(FuseTBackend::Nfs));
}

#[test]
fn fallback_texts_exact() {
    assert_eq!(
        fallback_warning("FSKit not available", FuseTBackend::Smb),
        "warning: FSKit not available. Falling back to Smb backend."
    );
    assert_eq!(fallback_question(FuseTBackend::Nfs), "Continue with Nfs backend? [Y/n] ");
}

#[test]
fn unknown_backend_error_frames_the_quoted_value() {
    assert_eq!(
        unknown_backend_error("\"ntfs\""),
        "unknown backend \"ntfs\". Valid values: smb, nfs, fskit"
    );
    assert_eq!(unknown_backend_error(""), "unknown backend . Valid values: smb, nfs, fskit");
}

#[test]
fn libfuse_t_name_round_trip() {
    for (a, b, c) in [(0u32, 0u32, 0u32), (1, 0, 54), (4294967295, 12, 7)] {
        assert_eq!(
            parse_libfuse_t_filename(&format!("libfuse-t-{}.{}.{}.dylib", a, b, c)),
            Some((a, b, c))
        );
    }
}

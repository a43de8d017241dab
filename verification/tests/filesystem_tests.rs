use slicefs_cli::content::{pwrite_into, read_slice, resize_content};
use slicefs_cli::filesystem::{
    blocks_of_size, classify_open_flags, closed_truncate_plan, compute_statfs, cut_to_zero_plan,
    displaced_target_plan,
    kind_of_mode, link_plan, meta_error_to_errno, mknod_mode, new_dir_mode, new_file_mode,
    open_access, parent_links_after_rmdir, perm_of_mode, release_commit, release_sets_empty_manifest,
    rename_check, rmdir_check, same_digest, unlink_plan, with_permissions, xattr_list_buffer,
    CommitSource, DisplacedTarget, Errno, FileKind, MetaErrorKind, OpenFileState, TruncateStep,
    UnlinkPlan, WriteRoute,
};

// ── content ───────────────────────────────────────────────────────────────────

#[test]
fn test_write_read_roundtrip() {
    let mut buf = Vec::new();
    pwrite_into(&mut buf, 0, b"hello world");
    assert_eq!(read_slice(&buf, 0, 100), b"hello world".to_vec());
}

#[test]
fn test_read_with_offset_and_size() {
    let buf = b"0123456789".to_vec();
    assert_eq!(read_slice(&buf, 3, 4), b"3456".to_vec());
    assert_eq!(read_slice(&buf, 8, 10), b"89".to_vec());
}

#[test]
fn test_read_beyond_eof_returns_empty() {
    let buf = b"abc".to_vec();
    assert!(read_slice(&buf, 10, 5).is_empty());
    assert!(read_slice(&Vec::new(), 0, 5).is_empty());
}

#[test]
fn pwrite_fills_gaps_with_zeros_and_keeps_other_bytes() {
    let mut buf = b"abcdef".to_vec();
    pwrite_into(&mut buf, 2, b"XY");
    assert_eq!(buf, b"abXYef".to_vec());
    pwrite_into(&mut buf, 8, b"Z");
    assert_eq!(buf, b"abXYef\0\0Z".to_vec());
    // Read after write returns exactly the written bytes.
    assert_eq!(read_slice(&buf, 8, 1), b"Z".to_vec());
}

#[test]
fn resize_truncates_and_zero_extends() {
    let mut buf = b"abcdef".to_vec();
    resize_content(&mut buf, 3);
    assert_eq!(buf, b"abc".to_vec());
    resize_content(&mut buf, 5);
    assert_eq!(buf, b"abc\0\0".to_vec());
}

// ── write path ────────────────────────────────────────────────────────────────

fn committed(ino: u64, bytes: &[u8], root: [u32; 7]) -> OpenFileState {
    let mut h = OpenFileState::new(ino);
    h.append(bytes);
    assert!(h.begin_fsync().is_some());
    h.finish_commit(root);
    h
}

#[test]
fn test_write_sequential_multiple() {
    let mut h = OpenFileState::new(7);
    assert_eq!(h.write_route(0), WriteRoute::Append);
    h.append(b"hello");
    assert_eq!(h.write_route(5), WriteRoute::Append);
    h.append(b"abc");
    assert_eq!(h.byte_count(), 8);
    assert!(!h.is_buffered());
    assert!(h.buffered_content().is_none());
    assert!(!h.cas_committed());
    assert_eq!(h.ino(), 7);
}

#[test]
fn test_write_nonsequential_triggers_buffered_fallback() {
    let mut h = committed(7, b"hello", [3; 7]);
    assert_eq!(h.write_route(2), WriteRoute::FallbackFromStream);
    let old = h.fallback_to_buffered(b"hello".to_vec(), 2, b"XYZW");
    assert_eq!(old, Some([3; 7]));
    assert_eq!(h.buffered_content(), Some(b"heXYZW".to_vec()));
    assert_eq!(h.byte_count(), 6);
    assert!(h.last_committed_root().is_none());
    assert_eq!(h.write_route(0), WriteRoute::Buffered);
    h.buffered_write(0, b"J");
    assert_eq!(h.buffered_content(), Some(b"JeXYZW".to_vec()));
    assert!(h.is_buffered(), "a buffered handle never returns to streaming");
}

#[test]
fn fallback_from_committed_content_when_nothing_streamed() {
    let mut h = OpenFileState::new(1);
    assert_eq!(h.write_route(4), WriteRoute::FallbackFromCommitted);
    assert_eq!(h.fallback_to_buffered(b"0123456789".to_vec(), 4, b"ab"), None);
    assert_eq!(read_slice(&h.buffered_content().unwrap(), 4, 2), b"ab".to_vec());
}

#[test]
fn test_fsync_commits_data() {
    let mut h = OpenFileState::new(2);
    assert!(h.begin_fsync().is_none(), "empty handle has nothing to commit");
    h.append(b"data");
    assert!(matches!(h.begin_fsync(), Some(CommitSource::Streaming)));
    assert!(h.cas_committed());
    let plan = h.finish_commit([1; 7]);
    assert_eq!(plan.decrement, None);
    assert_eq!(plan.increment, Some([1; 7]));
    // The same content again: nothing changes.
    let plan = h.finish_commit([1; 7]);
    assert_eq!((plan.decrement, plan.increment), (None, None));
    // New content: the reference moves.
    let plan = h.finish_commit([2; 7]);
    assert_eq!((plan.decrement, plan.increment), (Some([1; 7]), Some([2; 7])));
    assert_eq!(h.last_committed_root(), Some([2; 7]));
}

#[test]
fn fsync_of_buffered_handle_hands_out_a_copy() {
    let mut h = OpenFileState::new(2);
    h.fallback_to_buffered(Vec::new(), 0, b"abc");
    match h.begin_fsync() {
        Some(CommitSource::Buffered(b)) => assert_eq!(b, b"abc".to_vec()),
        _ => panic!("expected buffered content"),
    }
    match h.into_commit_source() {
        CommitSource::Buffered(b) => assert_eq!(b, b"abc".to_vec()),
        _ => panic!("expected buffered content"),
    }
}

#[test]
fn test_release_empty_file_no_existing_content() {
    assert!(release_sets_empty_manifest(false, false));
    assert!(!release_sets_empty_manifest(false, true), "existing content is never erased");
    assert!(!release_sets_empty_manifest(true, false));
}

#[test]
fn release_after_fsync_of_same_content_does_nothing() {
    assert!(release_commit(Some([5; 7]), true, [5; 7]).is_none());
    let p = release_commit(Some([5; 7]), false, [5; 7]).unwrap();
    assert_eq!((p.decrement, p.increment), (None, None));
    let p = release_commit(Some([5; 7]), true, [6; 7]).unwrap();
    assert_eq!((p.decrement, p.increment), (Some([5; 7]), Some([6; 7])));
    let p = release_commit(None, false, [6; 7]).unwrap();
    assert_eq!((p.decrement, p.increment), (None, Some([6; 7])));
    assert!(same_digest(&[1; 7], &[1; 7]));
    assert!(!same_digest(&[1; 7], &[1, 1, 1, 1, 1, 1, 2]));
}

// ── truncation ───────────────────────────────────────────────────────────────

#[test]
fn test_setattr_size_with_open_fh_streaming() {
    let mut h = committed(3, b"0123456789", [8; 7]);
    assert_eq!(h.truncate(4), TruncateStep::Rebuild { materialize: true });
    assert_eq!(h.byte_count(), 10, "a rebuild leaves the handle as it was");
    assert_eq!(h.finish_rebuild(b"0123"), Some([8; 7]));
    assert_eq!(h.byte_count(), 4);
    assert!(!h.is_buffered());
    assert_eq!(h.write_route(4), WriteRoute::Append);
    assert!(h.last_committed_root().is_none());
}

#[test]
fn test_setattr_size_zero_with_open_fh_streaming() {
    let mut h = committed(3, b"0123456789", [8; 7]);
    assert_eq!(h.truncate(0), TruncateStep::Done { decrement: Some([8; 7]), empty_file: true });
    assert_eq!(h.byte_count(), 0);
    assert!(h.last_committed_root().is_none());
}

#[test]
fn truncate_buffered_handle() {
    let mut h = OpenFileState::new(3);
    h.fallback_to_buffered(b"abcdef".to_vec(), 0, b"");
    assert!(h.begin_fsync().is_some());
    h.finish_commit([4; 7]);
    assert_eq!(h.truncate(8), TruncateStep::Done { decrement: None, empty_file: false });
    assert_eq!(h.buffered_content(), Some(b"abcdef\0\0".to_vec()));
    assert_eq!(h.last_committed_root(), Some([4; 7]));
    assert_eq!(h.truncate(0), TruncateStep::Done { decrement: Some([4; 7]), empty_file: true });
    assert_eq!(h.buffered_content(), Some(Vec::new()));
    let mut s = OpenFileState::new(1);
    assert_eq!(s.truncate(5), TruncateStep::Rebuild { materialize: false });
}

#[test]
fn test_setattr_size_truncate_closed_file() {
    let p = closed_truncate_plan(&vec![[1; 7]], 3);
    assert_eq!(p.decrement, Some([1; 7]));
    assert!(p.store_content);
    let p = closed_truncate_plan(&vec![], 0);
    assert_eq!(p.decrement, None);
    assert!(!p.store_content);
}

// ── modes and attributes ─────────────────────────────────────────────────────

#[test]
fn test_create_applies_umask() {
    assert_eq!(new_file_mode(0o666, 0o022), 0o100644);
    assert_eq!(new_dir_mode(0o777, 0o027), 0o040750);
    assert_eq!(new_file_mode(0o170777, 0), 0o100777, "type bits of the request are dropped");
}

#[test]
fn test_mknod_non_regular_file_returns_enosys() {
    assert_eq!(mknod_mode(0o010644, 0), Err(Errno::NoSys));
    assert_eq!(mknod_mode(0o020644, 0), Err(Errno::NoSys));
    assert_eq!(mknod_mode(0o100644, 0o022), Ok(0o100644));
    assert_eq!(mknod_mode(0o644, 0o077), Ok(0o100600));
}

#[test]
fn test_setattr_mode_preserves_type_bits() {
    assert_eq!(with_permissions(0o100644, 0o755), 0o100755);
    assert_eq!(with_permissions(0o040755, 0o100700), 0o040700);
}

#[test]
fn test_inode_to_file_attr_pieces() {
    assert_eq!(kind_of_mode(0o040755), FileKind::Directory);
    assert_eq!(kind_of_mode(0o120777), FileKind::Symlink);
    assert_eq!(kind_of_mode(0o100644), FileKind::RegularFile);
    assert_eq!(kind_of_mode(0o060644), FileKind::RegularFile);
    assert_eq!(perm_of_mode(0o104755), 0o4755);
    assert_eq!(blocks_of_size(0), 0);
    assert_eq!(blocks_of_size(1), 1);
    assert_eq!(blocks_of_size(512), 1);
    assert_eq!(blocks_of_size(513), 2);
    assert_eq!(blocks_of_size(u64::MAX), u64::MAX / 512 + 1);
}

#[test]
fn test_meta_error_to_errno() {
    assert_eq!(meta_error_to_errno(&MetaErrorKind::NotFound), Errno::NotFound);
    assert_eq!(meta_error_to_errno(&MetaErrorKind::AlreadyExists), Errno::Exists);
    assert_eq!(meta_error_to_errno(&MetaErrorKind::NotADirectory), Errno::NotDir);
    assert_eq!(meta_error_to_errno(&MetaErrorKind::IsADirectory), Errno::IsDir);
    assert_eq!(meta_error_to_errno(&MetaErrorKind::NotEmpty), Errno::NotEmpty);
    assert_eq!(meta_error_to_errno(&MetaErrorKind::InvalidName), Errno::Invalid);
    assert_eq!(meta_error_to_errno(&MetaErrorKind::Corrupted), Errno::Io);
    assert_eq!(meta_error_to_errno(&MetaErrorKind::Io), Errno::Io);
}

// ── directory entries ────────────────────────────────────────────────────────

fn names(list: &[&str]) -> Vec<String> {
    list.iter().map(|s| s.to_string()).collect()
}

#[test]
fn test_rmdir_empty_directory() {
    assert_eq!(rmdir_check(0o040755, &names(&[".", ".."])), Ok(()));
    assert_eq!(parent_links_after_rmdir(3), Some(2));
    assert_eq!(parent_links_after_rmdir(0), None);
}

#[test]
fn test_rmdir_nonempty_fails() {
    assert_eq!(rmdir_check(0o040755, &names(&[".", "..", "x"])), Err(Errno::NotEmpty));
}

#[test]
fn test_rmdir_non_directory_fails() {
    assert_eq!(rmdir_check(0o100644, &names(&[])), Err(Errno::NotDir));
}

#[test]
fn test_unlink_directory_fails() {
    assert_eq!(unlink_plan(0o040755, 2), Err(Errno::IsDir));
}

#[test]
fn test_unlink_with_hard_links_decrements_nlinks() {
    assert_eq!(unlink_plan(0o100644, 2), Ok(UnlinkPlan::SetLinks(1)));
    assert_eq!(unlink_plan(0o100644, 1), Ok(UnlinkPlan::Delete));
    assert_eq!(unlink_plan(0o100644, 0), Ok(UnlinkPlan::Delete));
}

#[test]
fn test_link_directory_fails() {
    assert_eq!(link_plan(0o040755, 2), Err(Errno::NotPermitted));
    assert_eq!(link_plan(0o100644, 1), Ok(2));
}

#[test]
fn test_rename_noreplace_fails_if_exists() {
    assert_eq!(rename_check(1, true, true), Err(Errno::Exists));
    assert_eq!(rename_check(1, true, false), Ok(()));
    assert_eq!(rename_check(0, true, true), Ok(()));
}

#[test]
fn test_rename_exchange_returns_enosys() {
    assert_eq!(rename_check(2, false, true), Err(Errno::NoSys));
    assert_eq!(rename_check(0, false, false), Err(Errno::NotFound));
}

#[test]
fn test_rename_overwrite_target() {
    assert_eq!(displaced_target_plan(0o100644, 1), DisplacedTarget::Delete);
    assert_eq!(displaced_target_plan(0o100644, 3), DisplacedTarget::SetLinks(2));
    assert_eq!(displaced_target_plan(0o040755, 1), DisplacedTarget::Orphan);
    assert_eq!(displaced_target_plan(0o040755, 0), DisplacedTarget::Orphan);
}

#[test]
fn test_xattr_list_buffer() {
    assert!(xattr_list_buffer(&vec![]).is_empty());
    assert_eq!(xattr_list_buffer(&names(&["user.a", "user.\u{e9}"])), b"user.a\0user.\xc3\xa9\0".to_vec());
}

#[test]
fn test_statfs_values() {
    let files = 5;
    assert_eq!(compute_statfs(files, None, None), (0, 0, 0, 5, u64::MAX - 5, 4096));
    assert_eq!(compute_statfs(files, Some((512, 100, 50, 40)), None), (100, 50, 40, 5, u64::MAX - 5, 512));
    assert_eq!(compute_statfs(files, Some((0, 100, 50, 40)), None), (100, 50, 40, 5, u64::MAX - 5, 4096));
    assert_eq!(
        compute_statfs(files, Some((512, 0, 0, 0)), Some((8192, 10, 9, 8))),
        (10, 9, 8, 5, u64::MAX - 5, 8192)
    );
    assert_eq!(compute_statfs(files, Some((512, 0, 0, 0)), Some((-1, 10, 9, 8))), (10, 9, 8, 5, u64::MAX - 5, 4096));
    assert_eq!(compute_statfs(files, Some((0x1_0000_1000, 1, 1, 1)), None).5, 0x1000);
}

#[test]
fn test_open_rdonly_wronly_rdwr() {
    // Flag values as on Linux.
    let (accmode, wronly, rdwr, trunc) = (3, 1, 2, 0o1000);
    let a = classify_open_flags(0, accmode, wronly, rdwr, trunc);
    assert!(!a.is_write && !a.truncate);
    let a = classify_open_flags(1, accmode, wronly, rdwr, trunc);
    assert!(a.is_write && !a.truncate);
    let a = classify_open_flags(2 | 0o1000, accmode, wronly, rdwr, trunc);
    assert!(a.is_write && a.truncate);
    let a = classify_open_flags(0o1000, accmode, wronly, rdwr, trunc);
    assert!(!a.is_write && !a.truncate, "truncation needs write access");
}

#[test]
fn test_open_with_trunc() {
    let a = open_access(libc::O_RDWR | libc::O_TRUNC);
    assert!(a.is_write && a.truncate);
    let a = open_access(libc::O_RDONLY);
    assert!(!a.is_write && !a.truncate);
    let a = open_access(libc::O_WRONLY);
    assert!(a.is_write && !a.truncate);
}

fn errno_number(e: Errno) -> i32 {
    match e {
        Errno::NotFound => libc::ENOENT,
        Errno::Exists => libc::EEXIST,
        Errno::NotDir => libc::ENOTDIR,
        Errno::IsDir => libc::EISDIR,
        Errno::NotEmpty => libc::ENOTEMPTY,
        Errno::Invalid => libc::EINVAL,
        Errno::Io => libc::EIO,
        Errno::BadHandle => libc::EBADF,
        Errno::NoSys => libc::ENOSYS,
        Errno::NotPermitted => libc::EPERM,
        Errno::NoData => libc::ENODATA,
    }
}

#[test]
fn test_meta_error_to_errno_all_variants() {
    assert_eq!(errno_number(meta_error_to_errno(&MetaErrorKind::NotEmpty)), libc::ENOTEMPTY);
    assert_eq!(errno_number(meta_error_to_errno(&MetaErrorKind::InvalidName)), libc::EINVAL);
    assert_eq!(errno_number(meta_error_to_errno(&MetaErrorKind::Io)), libc::EIO);
}

// A fresh store holds one inode (the root).

#[test]
fn test_statfs_files_not_hardcoded() {
    let (_blocks, _bfree, _bavail, files, _ffree, _bsize) = compute_statfs(1, None, None);
    assert_ne!(files, 1_000_000, "files must not be hardcoded 1_000_000");
    assert_eq!(files, 1, "fresh store files must equal inode_count (1)");
}

#[test]
fn test_statfs_no_store_path() {
    // No store path: neither statvfs nor statfs is asked.
    let (blocks, bfree, bavail, files, ffree, bsize) = compute_statfs(1, None, None);
    assert_eq!(blocks, 0);
    assert_eq!(bfree, 0);
    assert_eq!(bavail, 0);
    assert_eq!(files, 1);
    assert!(ffree > 0);
    assert_eq!(bsize, 4096);
}

#[test]
fn test_statfs_invalid_path_cstring() {
    // A store path with a NUL byte cannot be handed to statvfs or statfs.
    let (blocks, bfree, bavail, _files, _ffree, bsize) = compute_statfs(1, None, None);
    assert_eq!(blocks, 0);
    assert_eq!(bfree, 0);
    assert_eq!(bavail, 0);
    assert_eq!(bsize, 4096);
}

// ── open handles, write by write ─────────────────────────────────────────────
// A fallback is handed the bytes the store gives back for the content so far.

fn content_of(h: OpenFileState) -> Vec<u8> {
    match h.into_commit_source() {
        CommitSource::Buffered(b) => b,
        CommitSource::Streaming => panic!("expected a buffered handle"),
    }
}

#[test]
fn test_write_buffered_mode_pwrite() {
    let mut h = OpenFileState::new(2);
    h.append(b"AAAA");
    assert_eq!(h.write_route(0), WriteRoute::FallbackFromStream);
    h.fallback_to_buffered(b"AAAA".to_vec(), 0, b"BB");
    let data = content_of(h);
    assert_eq!(&read_slice(&data, 0, 100), b"BBAA");
}

#[test]
fn test_write_buffered_mode_extend() {
    let mut h = OpenFileState::new(2);
    h.append(b"abc");
    h.fallback_to_buffered(b"abc".to_vec(), 0, b"X");
    assert_eq!(h.write_route(10), WriteRoute::Buffered);
    h.buffered_write(10, b"YZ");
    let data = read_slice(&content_of(h), 0, 100);
    assert_eq!(data.len(), 12);
    assert_eq!(data[0], b'X');
    assert_eq!(&data[10..12], b"YZ");
}

#[test]
fn test_setattr_size_buffered_truncate() {
    let mut h = OpenFileState::new(2);
    h.append(b"hello");
    h.fallback_to_buffered(b"hello".to_vec(), 0, b"H");
    assert_eq!(h.truncate(3), TruncateStep::Done { decrement: None, empty_file: false });
    assert_eq!(&read_slice(&content_of(h), 0, 100), b"Hel");
}

#[test]
fn test_setattr_size_buffered_truncate_to_zero() {
    let mut h = OpenFileState::new(2);
    h.append(b"hello");
    h.fallback_to_buffered(b"hello".to_vec(), 0, b"H");
    h.truncate(0);
    assert_eq!(h.byte_count(), 0);
}

#[test]
fn test_setattr_size_buffered_extend() {
    let mut h = OpenFileState::new(2);
    h.append(b"ab");
    h.fallback_to_buffered(b"ab".to_vec(), 0, b"A");
    h.truncate(10);
    let data = read_slice(&content_of(h), 0, 100);
    assert_eq!(data.len(), 10);
    assert_eq!(data[0], b'A');
}

#[test]
fn test_read_during_write_buffered() {
    let mut h = OpenFileState::new(2);
    h.append(b"hello");
    h.fallback_to_buffered(b"hello".to_vec(), 0, b"H");
    let data = read_slice(&h.buffered_content().unwrap(), 0, 100);
    assert_eq!(&data, b"Hello");
}

#[test]
fn test_fsync_empty_file_is_noop() {
    let mut h = OpenFileState::new(2);
    assert!(h.begin_fsync().is_none());
    assert!(!h.cas_committed());
}

#[test]
fn test_release_after_fsync_skips_redundant_commit() {
    let mut h = OpenFileState::new(2);
    h.append(b"data");
    assert!(h.begin_fsync().is_some());
    h.finish_commit([9; 7]);
    // Finalizing the same bytes again gives the same root: release has nothing to do.
    assert!(release_commit(h.last_committed_root(), h.cas_committed(), [9; 7]).is_none());
}

#[test]
fn every_write_route_is_a_pwrite() {
    // Append, fallback from the stream, then buffered: each leaves pwrite of the content so far.
    let mut h = OpenFileState::new(5);
    let mut file: Vec<u8> = Vec::new();
    for (off, data) in [(0u64, &b"abc"[..]), (3, b"de"), (1, b"XY"), (9, b"Z"), (0, b"q")] {
        let route = h.write_route(off);
        match route {
            WriteRoute::Append => h.append(data),
            WriteRoute::FallbackFromStream | WriteRoute::FallbackFromCommitted => {
                h.fallback_to_buffered(file.clone(), off, data);
            }
            WriteRoute::Buffered => h.buffered_write(off, data),
        }
        pwrite_into(&mut file, off, data);
        assert_eq!(h.byte_count() as usize, file.len());
    }
    assert_eq!(h.buffered_content().unwrap(), file);
    assert_eq!(file, b"qXYde\0\0\0\0Z".to_vec());
}

#[test]
fn truncate_then_rebuild_is_a_resize() {
    let mut h = OpenFileState::new(5);
    h.append(b"hello");
    assert_eq!(h.truncate(8), TruncateStep::Rebuild { materialize: true });
    let mut rebuilt = b"hello".to_vec();
    resize_content(&mut rebuilt, 8);
    h.finish_rebuild(&rebuilt);
    assert_eq!(h.byte_count(), 8);
    h.fallback_to_buffered(rebuilt.clone(), 0, b"");
    assert_eq!(h.buffered_content().unwrap(), b"hello\0\0\0".to_vec());
}

#[test]
fn test_open_with_trunc_empties_the_file() {
    // A file with content, opened for writing with O_TRUNC, then released unwritten.
    let mut h = OpenFileState::new(9);
    assert_eq!(h.truncate(0), TruncateStep::Done { decrement: None, empty_file: true });
    assert_eq!(h.byte_count(), 0);
    // The cut empties the content list and drops the file's root.
    let p = cut_to_zero_plan(&vec![[7; 7]], None);
    assert!(!p.store_content);
    assert_eq!(p.decrement, Some([7; 7]));
    // With the list emptied, release records an empty list again: the file reads empty.
    assert!(release_sets_empty_manifest(h.cas_committed(), false));
    // A handle that committed the root itself already gave its reference up.
    let p = cut_to_zero_plan(&vec![[7; 7]], Some([7; 7]));
    assert_eq!(p.decrement, None);
    let p = cut_to_zero_plan(&vec![], None);
    assert_eq!(p.decrement, None);
}

//! Store maintenance commands: garbage collection, rebuilding and recovering
//! the dedup index, and seeding a store from a directory tree.

use vstd::prelude::*;
use crate::backend::{debug_str, debug_str_spec};
use crate::filesystem::{S_IFDIR, S_IFREG};
use crate::text::{chars_of, dec, dec_chars, extend_chars, extend_str, string_from_chars};

verus! {

// ── gc ────────────────────────────────────────────────────────────────────────

/// The refusal to collect garbage in a mounted store.
pub fn gc_mounted_message(lock_path: &str) -> (r: String)
    ensures
        r@ == "Store is mounted (mount.lock found at "@ + lock_path@
            + "). Unmount first or use background GC."@,
{
    let mut v = chars_of("Store is mounted (mount.lock found at ");
    extend_str(&mut v, lock_path);
    extend_str(&mut v, "). Unmount first or use background GC.");
    string_from_chars(&v)
}

/// The summary line of a garbage collection.
pub fn gc_summary_line(scanned: u64, removed: u64, compacted: u64) -> (r: String)
    ensures
        r@ == "GC complete: scanned "@ + dec(scanned as nat) + " entries, removed "@ + dec(
            removed as nat,
        ) + ", compacted "@ + dec(compacted as nat) + " segments"@,
{
    let mut v = chars_of("GC complete: scanned ");
    let d = dec_chars(scanned);
    extend_chars(&mut v, &d);
    extend_str(&mut v, " entries, removed ");
    let d = dec_chars(removed);
    extend_chars(&mut v, &d);
    extend_str(&mut v, ", compacted ");
    let d = dec_chars(compacted);
    extend_chars(&mut v, &d);
    extend_str(&mut v, " segments");
    string_from_chars(&v)
}

// ── reindex ───────────────────────────────────────────────────────────────────

/// Whether an index rebuild may start: only offline, and only on an existing
/// `cas/` directory (`cas_path` as displayed).
pub fn reindex_check(offline: bool, cas_exists: bool, cas_path: &str) -> (r: Result<(), String>)
    ensures
        !offline ==> (r matches Err(m) && m@
            == "online reindex is a v2 feature; pass --offline (default)"@),
        offline && !cas_exists ==> (r matches Err(m) && m@ == debug_str_spec(cas_path@)
            + " does not exist"@),
        offline && cas_exists ==> r is Ok,
{
    if !offline {
        let v = chars_of("online reindex is a v2 feature; pass --offline (default)");
        return Err(string_from_chars(&v));
    }
    if !cas_exists {
        return Err(missing_cas_message(cas_path));
    }
    Ok(())
}

/// The error for a store without a `cas/` directory.
pub fn missing_cas_message(cas_path: &str) -> (r: String)
    ensures
        r@ == debug_str_spec(cas_path@) + " does not exist"@,
{
    let d = debug_str(cas_path);
    does_not_exist(d.as_str())
}

/// The error for a missing path, given the path as `Debug` writes it (`quoted`).
pub fn does_not_exist(quoted: &str) -> (r: String)
    ensures
        r@ == quoted@ + " does not exist"@,
{
    let mut v = chars_of(quoted);
    extend_str(&mut v, " does not exist");
    string_from_chars(&v)
}

// ── dedup-recover ─────────────────────────────────────────────────────────────

/// The file name under which an existing index is kept, stamped with the Unix
/// time `secs`.
pub fn backup_name(secs: u64) -> (r: String)
    ensures
        r@ == "index.redb.bak."@ + dec(secs as nat),
{
    let mut v = chars_of("index.redb.bak.");
    let d = dec_chars(secs);
    extend_chars(&mut v, &d);
    string_from_chars(&v)
}

/// Whether a failed rebuild puts the backed-up index back in place: only when
/// there was an index and its backup is still there.
pub fn restore_after_failed_recover(had_existing_index: bool, backup_exists: bool) -> (r: bool)
    ensures
        r == (had_existing_index && backup_exists),
{
    had_existing_index && backup_exists
}

/// The closing line of a successful recovery: where the old index was kept,
/// or that there was none (`backup` and `index_dir` are paths as displayed).
pub fn recover_ok_line(had_existing_index: bool, backup: &str, index_dir: &str) -> (r: String)
    ensures
        had_existing_index ==> r@ == "recover ok; backup retained at "@ + debug_str_spec(backup@),
        !had_existing_index ==> r@ == "recover ok: "@ + debug_str_spec(index_dir@)
            + " (no prior index to back up)"@,
{
    if had_existing_index {
        let d = debug_str(backup);
        recover_ok_text(true, d.as_str())
    } else {
        let d = debug_str(index_dir);
        recover_ok_text(false, d.as_str())
    }
}

/// The closing line of a successful recovery, given as `quoted` the backup path
/// (when there was an index) or the index directory (when there was none), as
/// `Debug` writes it.
pub fn recover_ok_text(had_existing_index: bool, quoted: &str) -> (r: String)
    ensures
        had_existing_index ==> r@ == "recover ok; backup retained at "@ + quoted@,
        !had_existing_index ==> r@ == "recover ok: "@ + quoted@ + " (no prior index to back up)"@,
{
    if had_existing_index {
        let mut v = chars_of("recover ok; backup retained at ");
        extend_str(&mut v, quoted);
        string_from_chars(&v)
    } else {
        let mut v = chars_of("recover ok: ");
        extend_str(&mut v, quoted);
        extend_str(&mut v, " (no prior index to back up)");
        string_from_chars(&v)
    }
}

// ── seed ──────────────────────────────────────────────────────────────────────

/// The mode of a seeded regular file: its permission bits as a regular file.
pub fn seeded_file_mode(host_mode: u32) -> (m: u32)
    ensures
        m == S_IFREG | (host_mode & 0o7777u32),
{
    S_IFREG | (host_mode & 0o7777)
}

/// The mode of a seeded directory: its permission bits as a directory.
pub fn seeded_dir_mode(host_mode: u32) -> (m: u32)
    ensures
        m == S_IFDIR | (host_mode & 0o7777u32),
{
    S_IFDIR | (host_mode & 0o7777)
}

} // verus!

//! Decisions of the `mount` subcommand: the `fuse-t.ini` backend override, the
//! next segment id, the WAL strategy, the mount-table check and the mount options.
//!
//! Reading and writing files, running `mount`, and starting the FUSE session are
//! left to the caller; the functions here compute from what it read.

use vstd::prelude::*;
use vstd::string::StringExecFns;
use crate::backend::{mount_option_spec, FuseTBackend};
use crate::text::{
    before_first, chars_eq_str, chars_of, ends_with, find_in_range, find_sub, range_eq, sub_chars, eq_ignore_ascii_case, extend_chars, extend_range,
    extend_str, line_ranges, lines, parse_unsigned_range, parse_unsigned_spec,
    range_eq_ignore_ascii_case, range_ends_with, range_starts_with, starts_with,
    string_from_chars, trim, trim_range, join_lines, plain_line, lemma_lines_join, lemma_lines_plain,
    lemma_join_append, is_whitespace, trim_start, trim_end,
};

verus! {

// ── fuse-t.ini override ───────────────────────────────────────────────────────

/// Where the rewrite of an ini file stands after some of its lines.
#[verifier::ext_equal]
pub struct IniRewrite {
    /// The text written so far.
    pub out: Seq<char>,
    /// Whether the last section header seen was `[Default]`.
    pub in_default: bool,
    /// Whether the backend entry has been written.
    pub injected: bool,
}

/// The rewrite after one more input line.
pub open spec fn ini_step(st: IniRewrite, line: Seq<char>, entry: Seq<char>) -> IniRewrite {
    let t = trim(line);
    if starts_with(t, "["@) {
        let flush = st.in_default && !st.injected;
        let out = if flush {
            st.out + entry + "\n"@
        } else {
            st.out
        };
        IniRewrite {
            out: out + line + "\n"@,
            in_default: eq_ignore_ascii_case(t, "[Default]"@),
            injected: st.injected || flush,
        }
    } else if st.in_default && starts_with(t, "backend="@) {
        IniRewrite { out: st.out + entry + "\n"@, in_default: st.in_default, injected: true }
    } else {
        IniRewrite { out: st.out + line + "\n"@, ..st }
    }
}

/// The rewrite after the lines `ls`.
pub open spec fn ini_fold(ls: Seq<Seq<char>>, entry: Seq<char>) -> IniRewrite
    decreases ls.len(),
{
    if ls.len() == 0 {
        IniRewrite { out: Seq::empty(), in_default: false, injected: false }
    } else {
        ini_step(ini_fold(ls.drop_last(), entry), ls.last(), entry)
    }
}

/// `ini` with `backend=<backend>` set in its `[Default]` section: an existing
/// `backend=` line there is replaced, a missing one is added at the end of the
/// section, and a missing section is appended. Every line is written with a
/// trailing `\n`.
pub open spec fn inject_backend_spec(ini: Seq<char>, backend: Seq<char>) -> Seq<char> {
    let entry = "backend="@ + backend;
    let st = ini_fold(lines(ini), entry);
    if st.injected {
        st.out
    } else if st.in_default {
        st.out + entry + "\n"@
    } else {
        let base = if st.out.len() > 0 && st.out.last() != '\n' {
            st.out + "\n"@
        } else {
            st.out
        };
        base + "[Default]\n"@ + entry + "\n"@
    }
}

/// Inject or replace `backend=<value>` under the `[Default]` section in an
/// ini-format string. Returns the modified string.
pub fn inject_backend_into_ini(ini: &str, backend: &str) -> (r: String)
    ensures
        r@ == inject_backend_spec(ini@, backend@),
{
    let v = chars_of(ini);
    let mut entry: Vec<char> = Vec::new();
    extend_str(&mut entry, "backend=");
    extend_str(&mut entry, backend);
    let ghost e = entry@;
    let ranges = line_ranges(&v);
    let ghost ls = lines(v@);
    let open_bracket = chars_of("[");
    let key = chars_of("backend=");
    let default_header = chars_of("[Default]");
    let mut out: Vec<char> = Vec::new();
    let mut in_default = false;
    let mut injected = false;
    let mut i: usize = 0;
    assert(ls.take(0) =~= Seq::<Seq<char>>::empty());
    while i < ranges.len()
        invariant
            i <= ranges@.len(),
            ranges@.len() == ls.len(),
            ls == lines(v@),
            e == entry@,
            open_bracket@ == "["@,
            key@ == "backend="@,
            default_header@ == "[Default]"@,
            forall|k: int|
                0 <= k < ranges@.len() ==> {
                    &&& (#[trigger] ranges@[k]).0 <= ranges@[k].1 <= v@.len()
                    &&& v@.subrange(ranges@[k].0 as int, ranges@[k].1 as int) == ls[k]
                },
            ini_fold(ls.take(i as int), e) == (IniRewrite { out: out@, in_default, injected }),
        decreases ranges@.len() - i,
    {
        let (a, b) = ranges[i];
        let ghost line = ls[i as int];
        assert(ls.take(i + 1).drop_last() =~= ls.take(i as int));
        assert(ls.take(i + 1).last() == line);
        let (ta, tb) = trim_range(&v, a, b);
        if range_starts_with(&v, ta, tb, &open_bracket) {
            if in_default && !injected {
                extend_chars(&mut out, &entry);
                out.push('\n');
                injected = true;
            }
            in_default = range_eq_ignore_ascii_case(&v, ta, tb, &default_header);
            extend_range(&mut out, &v, a, b);
            out.push('\n');
        } else if in_default && range_starts_with(&v, ta, tb, &key) {
            extend_chars(&mut out, &entry);
            out.push('\n');
            injected = true;
        } else {
            extend_range(&mut out, &v, a, b);
            out.push('\n');
        }
        proof {
            reveal_strlit("\n");
        }
        assert(ini_fold(ls.take(i + 1), e) =~= IniRewrite { out: out@, in_default, injected });
        i += 1;
    }
    assert(ls.take(ls.len() as int) =~= ls);
    proof {
        reveal_strlit("\n");
        reveal_strlit("[Default]\n");
    }
    if !injected {
        if in_default {
            extend_chars(&mut out, &entry);
            out.push('\n');
        } else {
            if out.len() > 0 && out[out.len() - 1] != '\n' {
                out.push('\n');
            }
            extend_str(&mut out, "[Default]\n");
            extend_chars(&mut out, &entry);
            out.push('\n');
        }
    }
    string_from_chars(&out)
}

// ── Segment ids ───────────────────────────────────────────────────────────────

/// The id in a segment file name `segment-<id>.seg`, when the id parses as a `u64`.
pub open spec fn segment_id_of(name: Seq<char>) -> Option<nat> {
    if starts_with(name, "segment-"@) && ends_with(name, ".seg"@) && name.len() >= 12 {
        parse_unsigned_spec(name.subrange(8, name.len() - 4), u64::MAX as nat)
    } else {
        None
    }
}

/// The largest segment id among the file names `names` (0 when there is none).
pub open spec fn max_segment_id(names: Seq<Seq<char>>) -> nat
    decreases names.len(),
{
    if names.len() == 0 {
        0
    } else {
        let rest = max_segment_id(names.drop_last());
        match segment_id_of(names.last()) {
            Some(id) => if id > rest {
                id
            } else {
                rest
            },
            None => rest,
        }
    }
}

/// The segment id of one file name.
pub fn segment_id(name: &str) -> (r: Option<u64>)
    ensures
        match segment_id_of(name@) {
            Some(id) => r == Some(id as u64),
            None => r is None,
        },
{
    let v = chars_of(name);
    let prefix = chars_of("segment-");
    let suffix = chars_of(".seg");
    proof {
        reveal_strlit("segment-");
        reveal_strlit(".seg");
    }
    assert(v@.subrange(0, v@.len() as int) =~= v@);
    if !range_starts_with(&v, 0, v.len(), &prefix) || !range_ends_with(&v, 0, v.len(), &suffix) {
        return None;
    }
    if v.len() < 12 {
        return None;
    }
    parse_unsigned_range(&v, 8, v.len() - 4, u64::MAX)
}

/// The largest segment id among the file names `names` (0 when there is none).
fn max_segment(names: &Vec<String>) -> (r: u64)
    ensures
        r == max_segment_id(names.deep_view()),
{
    let mut max_id: u64 = 0;
    let mut i: usize = 0;
    assert(names.deep_view().take(0) =~= Seq::<Seq<char>>::empty());
    while i < names.len()
        invariant
            i <= names.len(),
            max_id == max_segment_id(names.deep_view().take(i as int)),
        decreases names.len() - i,
    {
        let ghost ns = names.deep_view();
        assert(ns.take(i + 1).drop_last() =~= ns.take(i as int));
        assert(ns.take(i + 1).last() == names[i as int]@);
        match segment_id(names[i].as_str()) {
            Some(id) => {
                if id > max_id {
                    max_id = id;
                }
            },
            None => {},
        }
        i += 1;
    }
    assert(names.deep_view().take(names.len() as int) =~= names.deep_view());
    max_id
}

/// Determine the next segment ID from the names of the files in the segments
/// directory: `max_existing_id + 1`, or `1` if no segment file exists.
pub fn next_segment_id(names: &Vec<String>) -> (r: u64)
    requires
        max_segment_id(names.deep_view()) < u64::MAX,
    ensures
        r == max_segment_id(names.deep_view()) + 1,
{
    max_segment(names) + 1
}

/// Whether `next_segment_id` would overflow: some file carries the id `u64::MAX`.
pub fn segment_ids_exhausted(names: &Vec<String>) -> (r: bool)
    ensures
        r == (max_segment_id(names.deep_view()) >= u64::MAX),
{
    max_segment(names) == u64::MAX
}

// ── WAL strategy ──────────────────────────────────────────────────────────────

/// The WAL durability strategy of a mount.
#[derive(Debug, Clone, Copy, PartialEq, Eq, Structural)]
pub enum WalStrategy {
    /// Sync to disk after every mutation.
    PerOp,
    /// Buffer mutations; flush on explicit fsync.
    FlushOnFsync,
    /// Buffer mutations; flush on a background timer or at shutdown.
    Periodic { interval_secs: u64 },
    /// No write-ahead log.
    NoWal,
}

/// The strategy that `--wal-strategy` names; anything unknown (or nothing) is per-op.
pub open spec fn wal_strategy_spec(strategy: Option<Seq<char>>) -> WalStrategy {
    match strategy {
        Some(s) => if s == "flush-on-fsync"@ {
            WalStrategy::FlushOnFsync
        } else if s == "periodic"@ {
            WalStrategy::Periodic { interval_secs: 5 }
        } else if s == "no-wal"@ {
            WalStrategy::NoWal
        } else {
            WalStrategy::PerOp
        },
        None => WalStrategy::PerOp,
    }
}

/// Parse a WAL strategy string.
///
/// Accepted values: "per-op" (default), "flush-on-fsync", "periodic", "no-wal".
pub fn parse_wal_config(strategy: Option<&str>) -> (r: WalStrategy)
    ensures
        r == wal_strategy_spec(
            match strategy {
                Some(s) => Some(s@),
                None => None,
            },
        ),
{
    match strategy {
        Some(s) => {
            let v = chars_of(s);
            if chars_eq_str(&v, "flush-on-fsync") {
                WalStrategy::FlushOnFsync
            } else if chars_eq_str(&v, "periodic") {
                WalStrategy::Periodic { interval_secs: 5 }
            } else if chars_eq_str(&v, "no-wal") {
                WalStrategy::NoWal
            } else {
                WalStrategy::PerOp
            }
        },
        None => WalStrategy::PerOp,
    }
}

// ── Mountpoint guard ──────────────────────────────────────────────────────────

/// The path that a line of `mount` output (`<device> on <path> (<options>)`) names.
pub open spec fn mounted_path_of(line: Seq<char>) -> Option<Seq<char>> {
    match find_sub(line, " on "@) {
        Some(k) => Some(before_first(line.skip(k + 4), " ("@)),
        None => None,
    }
}

/// The first of the lines `ls[i..]` that mounts `path`.
pub open spec fn first_mount_from(ls: Seq<Seq<char>>, path: Seq<char>, i: int) -> Option<Seq<char>>
    decreases ls.len() - i,
{
    if i < 0 || i >= ls.len() {
        None
    } else if mounted_path_of(ls[i]) == Some(path) {
        Some(ls[i])
    } else {
        first_mount_from(ls, path, i + 1)
    }
}

/// The error for a mountpoint that is already mounted.
pub open spec fn in_use_message(display: Seq<char>, line: Seq<char>) -> Seq<char> {
    "mountpoint "@ + display + " is already in use:\n  "@ + line + "\nRun `slicefs unmount "@
        + display + "` or `umount "@ + display + "` first."@
}

/// Check that `canonical` (the canonical mountpoint path) is not already mounted,
/// given the output of the `mount` command. `display` is the mountpoint as the user
/// gave it, used in the error message.
pub fn check_mountpoint_not_in_use(mount_table: &str, canonical: &str, display: &str) -> (r:
    Result<(), String>)
    ensures
        match first_mount_from(lines(mount_table@), canonical@, 0) {
            Some(line) => r is Err && r->Err_0@ == in_use_message(display@, line),
            None => r is Ok,
        },
{
    let v = chars_of(mount_table);
    let want = chars_of(canonical);
    let on = chars_of(" on ");
    let paren = chars_of(" (");
    proof {
        reveal_strlit(" on ");
    }
    let ranges = line_ranges(&v);
    let ghost ls = lines(v@);
    let mut i: usize = 0;
    while i < ranges.len()
        invariant
            i <= ranges@.len(),
            ranges@.len() == ls.len(),
            ls == lines(v@),
            v@ == mount_table@,
            want@ == canonical@,
            on@ == " on "@,
            on@.len() == 4,
            paren@ == " ("@,
            forall|k: int|
                0 <= k < ranges@.len() ==> {
                    &&& (#[trigger] ranges@[k]).0 <= ranges@[k].1 <= v@.len()
                    &&& v@.subrange(ranges@[k].0 as int, ranges@[k].1 as int) == ls[k]
                },
            first_mount_from(ls, canonical@, 0) == first_mount_from(ls, canonical@, i as int),
        decreases ranges@.len() - i,
    {
        let (a, b) = ranges[i];
        let ghost line = ls[i as int];
        let mut hit = false;
        match find_in_range(&v, a, b, &on) {
            Some(k) => {
                proof {
                    crate::text::lemma_find_from_bounds(line, " on "@, 0);
                }
                let rest_start = a + k + 4;
                assert(v@.subrange(rest_start as int, b as int) =~= line.skip(k + 4));
                let end = match find_in_range(&v, rest_start, b, &paren) {
                    Some(j) => {
                        proof {
                            crate::text::lemma_find_from_bounds(line.skip(k + 4), " ("@, 0);
                        }
                        assert(v@.subrange(rest_start as int, rest_start + j) =~= line.skip(k
                            + 4).take(j as int));
                        rest_start + j
                    },
                    None => b,
                };
                hit = range_eq(&v, rest_start, end, &want);
            },
            None => {},
        }
        if hit {
            let mut m: Vec<char> = Vec::new();
            extend_str(&mut m, "mountpoint ");
            extend_str(&mut m, display);
            extend_str(&mut m, " is already in use:\n  ");
            extend_range(&mut m, &v, a, b);
            extend_str(&mut m, "\nRun `slicefs unmount ");
            extend_str(&mut m, display);
            extend_str(&mut m, "` or `umount ");
            extend_str(&mut m, display);
            extend_str(&mut m, "` first.");
            return Err(string_from_chars(&m));
        }
        i += 1;
    }
    Ok(())
}

// ── Mount options ─────────────────────────────────────────────────────────────

/// A FUSE mount option.
#[derive(Debug, Clone, PartialEq, Eq)]
pub enum MountOpt {
    /// The filesystem name shown in the mount table.
    FsName(String),
    /// Let the kernel check permissions.
    DefaultPermissions,
    /// Do not update access times.
    NoAtime,
    /// Read-only mount.
    ReadOnly,
    /// An option passed through as text.
    Custom(String),
}

/// A [`MountOpt`] with its text taken by its characters.
pub enum MountOptView {
    FsName(Seq<char>),
    DefaultPermissions,
    NoAtime,
    ReadOnly,
    Custom(Seq<char>),
}

impl View for MountOpt {
    type V = MountOptView;

    open spec fn view(&self) -> MountOptView {
        match self {
            MountOpt::FsName(s) => MountOptView::FsName(s@),
            MountOpt::DefaultPermissions => MountOptView::DefaultPermissions,
            MountOpt::NoAtime => MountOptView::NoAtime,
            MountOpt::ReadOnly => MountOptView::ReadOnly,
            MountOpt::Custom(s) => MountOptView::Custom(s@),
        }
    }
}

/// Who may access the mounted filesystem.
#[derive(Debug, Clone, Copy, PartialEq, Eq, Structural)]
pub enum SessionAcl {
    /// Every user (`allow_other`).
    All,
    /// Only the mounting user.
    Owner,
}

/// The FUSE mount configuration.
#[derive(Debug)]
pub struct MountConfig {
    /// The mount options, in order.
    pub mount_options: Vec<MountOpt>,
    /// Access control for the session.
    pub acl: SessionAcl,
}

/// The options of a mount, in order: `FSName("slicefs")`, `DefaultPermissions`,
/// `NoAtime` when `noatime`; on macOS `noappledouble`, `noapplexattr` and the
/// backend's mount option when one is given.
pub open spec fn mount_options_spec(noatime: bool, macos: bool, backend: Option<FuseTBackend>) -> Seq<MountOptView> {
    let base = seq![MountOptView::FsName("slicefs"@), MountOptView::DefaultPermissions];
    let with_atime = if noatime {
        base.push(MountOptView::NoAtime)
    } else {
        base
    };
    if macos {
        let apple = with_atime.push(MountOptView::Custom("noappledouble"@)).push(
            MountOptView::Custom("noapplexattr"@),
        );
        match backend {
            Some(b) => apple.push(MountOptView::Custom(mount_option_spec(b))),
            None => apple,
        }
    } else {
        with_atime
    }
}

/// The mount options taken by their views.
pub open spec fn options_view(opts: Seq<MountOpt>) -> Seq<MountOptView> {
    Seq::new(opts.len(), |i: int| opts[i]@)
}

/// Build the FUSE mount configuration. `macos` tells whether the mount runs on
/// macOS (FUSE-T), where the Apple options and the backend option apply.
/// The ACL is `All` when `allow_other` holds, `Owner` otherwise.
pub fn build_mount_options(noatime: bool, allow_other: bool, macos: bool, backend: Option<FuseTBackend>) -> (r: MountConfig)
    ensures
        options_view(r.mount_options@) == mount_options_spec(noatime, macos, backend),
        r.acl == (if allow_other { SessionAcl::All } else { SessionAcl::Owner }),
{
    let mut opts: Vec<MountOpt> = Vec::new();
    opts.push(MountOpt::FsName(String::from_str("slicefs")));
    opts.push(MountOpt::DefaultPermissions);
    if noatime {
        opts.push(MountOpt::NoAtime);
    }
    if macos {
        opts.push(MountOpt::Custom(String::from_str("noappledouble")));
        opts.push(MountOpt::Custom(String::from_str("noapplexattr")));
        match backend {
            Some(b) => {
                opts.push(MountOpt::Custom(String::from_str(b.as_mount_option())));
            },
            None => {},
        }
    }
    assert(options_view(opts@) =~= mount_options_spec(noatime, macos, backend));
    MountConfig {
        mount_options: opts,
        acl: if allow_other { SessionAcl::All } else { SessionAcl::Owner },
    }
}

/// The configuration for mounting a snapshot: the options of
/// [`build_mount_options`] without a backend, followed by `ReadOnly`.
pub fn build_snapshot_mount_options(noatime: bool, allow_other: bool, macos: bool) -> (r: MountConfig)
    ensures
        options_view(r.mount_options@) == mount_options_spec(noatime, macos, None).push(
            MountOptView::ReadOnly,
        ),
        r.acl == (if allow_other { SessionAcl::All } else { SessionAcl::Owner }),
{
    let mut cfg = build_mount_options(noatime, allow_other, macos, None);
    cfg.mount_options.push(MountOpt::ReadOnly);
    assert(options_view(cfg.mount_options@) =~= mount_options_spec(noatime, macos, None).push(
        MountOptView::ReadOnly,
    ));
    cfg
}

// ── Store layout ──────────────────────────────────────────────────────────────

/// The refusal of a store in the legacy single-dictionary format.
pub open spec fn legacy_store_message(store: Seq<char>) -> Seq<char> {
    "legacy store format detected at "@ + store
        + ". Re-seed required: slicefs seed <store> <source>"@
}

/// The error for a directory that holds no store.
pub open spec fn missing_store_message(store: Seq<char>) -> Seq<char> {
    "store not found at "@ + store + ": no segments/ directory"@
}

/// Check the store's layout before it is opened (`store` as displayed): a
/// legacy `dictionary.bin` is refused (re-seed required), and a store needs
/// its `segments/` directory.
pub fn check_store_layout(store: &str, has_legacy_dictionary: bool, has_segments_dir: bool) -> (r:
    Result<(), String>)
    ensures
        has_legacy_dictionary ==> (r matches Err(m) && m@ == legacy_store_message(store@)),
        !has_legacy_dictionary && !has_segments_dir ==> (r matches Err(m) && m@
            == missing_store_message(store@)),
        !has_legacy_dictionary && has_segments_dir ==> r is Ok,
{
    if has_legacy_dictionary {
        let mut v = chars_of("legacy store format detected at ");
        extend_str(&mut v, store);
        extend_str(&mut v, ". Re-seed required: slicefs seed <store> <source>");
        Err(string_from_chars(&v))
    } else if !has_segments_dir {
        let mut v = chars_of("store not found at ");
        extend_str(&mut v, store);
        extend_str(&mut v, ": no segments/ directory");
        Err(string_from_chars(&v))
    } else {
        Ok(())
    }
}

/// The line printed when a snapshot is mounted.
pub fn snapshot_mount_line(version: u64) -> (r: String)
    ensures
        r@ == "Mounting snapshot "@ + crate::text::dec(version as nat) + " (read-only)"@,
{
    let mut v = chars_of("Mounting snapshot ");
    let d = crate::text::dec_chars(version);
    extend_chars(&mut v, &d);
    extend_str(&mut v, " (read-only)");
    string_from_chars(&v)
}

// ── Laws ──────────────────────────────────────────────────────────────────────

/// No existing segment id exceeds the maximum, so the next id is unused.
pub proof fn law_next_segment_id_is_fresh(names: Seq<Seq<char>>, i: int)
    requires
        0 <= i < names.len(),
        segment_id_of(names[i]) is Some,
    ensures
        segment_id_of(names[i])->Some_0 < max_segment_id(names) + 1,
    decreases names.len(),
{
    if i < names.len() - 1 {
        law_next_segment_id_is_fresh(names.drop_last(), i);
        assert(names.drop_last()[i] == names[i]);
    }
}

/// `p` occurs in `s` as a contiguous run.
pub open spec fn occurs_in(s: Seq<char>, p: Seq<char>) -> bool {
    exists|k: int| 0 <= k && k + p.len() <= s.len() && #[trigger] s.subrange(k, k + p.len()) == p
}

proof fn lemma_occurs_extend(s: Seq<char>, t: Seq<char>, p: Seq<char>)
    requires
        occurs_in(s, p),
    ensures
        occurs_in(s + t, p),
{
    let k = choose|k: int| 0 <= k && k + p.len() <= s.len() && #[trigger] s.subrange(k, k + p.len()) == p;
    assert((s + t).subrange(k, k + p.len()) =~= s.subrange(k, k + p.len()));
}

proof fn lemma_occurs_at_end(s: Seq<char>, p: Seq<char>, t: Seq<char>)
    ensures
        occurs_in(s + p + t, p),
{
    let u = s + p + t;
    assert(u.subrange(s.len() as int, (s.len() + p.len()) as int) =~= p);
}

proof fn lemma_fold_keeps_entry(ls: Seq<Seq<char>>, entry: Seq<char>)
    ensures
        ini_fold(ls, entry).injected ==> occurs_in(ini_fold(ls, entry).out, entry + "\n"@),
    decreases ls.len(),
{
    if ls.len() > 0 {
        let prev = ini_fold(ls.drop_last(), entry);
        lemma_fold_keeps_entry(ls.drop_last(), entry);
        let line = ls.last();
        let t = trim(line);
        let e = entry + "\n"@;
        if starts_with(t, "["@) {
            if prev.in_default && !prev.injected {
                assert(prev.out + entry + "\n"@ + line + "\n"@ =~= prev.out + e + (line + "\n"@));
                lemma_occurs_at_end(prev.out, e, line + "\n"@);
            } else if prev.injected {
                assert(prev.out + line + "\n"@ =~= prev.out + (line + "\n"@));
                lemma_occurs_extend(prev.out, line + "\n"@, e);
            }
        } else if prev.in_default && starts_with(t, "backend="@) {
            assert(prev.out + entry + "\n"@ =~= prev.out + e + Seq::<char>::empty());
            lemma_occurs_at_end(prev.out, e, Seq::<char>::empty());
        } else if prev.injected {
            assert(prev.out + line + "\n"@ =~= prev.out + (line + "\n"@));
            lemma_occurs_extend(prev.out, line + "\n"@, e);
        }
    }
}

/// After the override, the ini text holds the line `backend=<backend>`.
pub proof fn law_injected_ini_has_backend_line(ini: Seq<char>, backend: Seq<char>)
    ensures
        occurs_in(inject_backend_spec(ini, backend), "backend="@ + backend + "\n"@),
{
    let entry = "backend="@ + backend;
    let e = entry + "\n"@;
    let st = ini_fold(lines(ini), entry);
    lemma_fold_keeps_entry(lines(ini), entry);
    if st.injected {
    } else if st.in_default {
        assert(st.out + entry + "\n"@ =~= st.out + e + Seq::<char>::empty());
        lemma_occurs_at_end(st.out, e, Seq::<char>::empty());
    } else {
        let base = if st.out.len() > 0 && st.out.last() != '\n' {
            st.out + "\n"@
        } else {
            st.out
        };
        assert(base + "[Default]\n"@ + entry + "\n"@ =~= (base + "[Default]\n"@) + e
            + Seq::<char>::empty());
        lemma_occurs_at_end(base + "[Default]\n"@, e, Seq::<char>::empty());
    }
}

// ── Mount options ─────────────────────────────────────────────────────────────

/// The mount options always name the filesystem `slicefs` and ask the kernel to
/// check permissions; they hold `NoAtime` exactly when access times are off, on
/// every platform and with any backend; the Apple options exactly on macOS; and a
/// backend's option exactly when on macOS that backend is given.
pub proof fn law_mount_options(noatime: bool, macos: bool, backend: Option<FuseTBackend>)
    ensures
        mount_options_spec(noatime, macos, backend).contains(MountOptView::FsName("slicefs"@)),
        mount_options_spec(noatime, macos, backend).contains(MountOptView::DefaultPermissions),
        mount_options_spec(noatime, macos, backend).contains(MountOptView::NoAtime) <==> noatime,
        !mount_options_spec(noatime, macos, backend).contains(MountOptView::ReadOnly),
        mount_options_spec(noatime, macos, backend).contains(
            MountOptView::Custom("noappledouble"@),
        ) <==> macos,
        mount_options_spec(noatime, macos, backend).contains(MountOptView::Custom("noapplexattr"@))
            <==> macos,
        forall|b: FuseTBackend|
            mount_options_spec(noatime, macos, backend).contains(
                MountOptView::Custom(#[trigger] mount_option_spec(b)),
            ) <==> (macos && backend == Some(b)),
{
    reveal_strlit("noappledouble");
    reveal_strlit("noapplexattr");
    reveal_strlit("backend=fskit");
    reveal_strlit("backend=smb");
    reveal_strlit("backend=nfs");
    let o = mount_options_spec(noatime, macos, backend);
    let base = seq![MountOptView::FsName("slicefs"@), MountOptView::DefaultPermissions];
    let w = if noatime { base.push(MountOptView::NoAtime) } else { base };
    let apple = w.push(MountOptView::Custom("noappledouble"@)).push(
        MountOptView::Custom("noapplexattr"@),
    );
    assert(o[0] == MountOptView::FsName("slicefs"@));
    assert(o[1] == MountOptView::DefaultPermissions);
    // Which custom options there are, and where.
    assert("noappledouble"@ != "noapplexattr"@) by {
        assert("noappledouble"@.len() != "noapplexattr"@.len());
    }
    assert forall|b: FuseTBackend|
        #![trigger mount_option_spec(b)]
        mount_option_spec(b) != "noappledouble"@ && mount_option_spec(b) != "noapplexattr"@ by {
        assert(mount_option_spec(b)[0] == 'b');
    }
    assert forall|b: FuseTBackend, c: FuseTBackend|
        #![trigger mount_option_spec(b), mount_option_spec(c)]
        mount_option_spec(b) == mount_option_spec(c) ==> b == c by {
        if mount_option_spec(b) == mount_option_spec(c) {
            assert(mount_option_spec(b)[8] == mount_option_spec(c)[8]);
        }
    }
    if noatime {
        assert(w[2] == MountOptView::NoAtime);
        assert(o[2] == MountOptView::NoAtime);
    }
    if macos {
        assert(o[w.len() as int] == MountOptView::Custom("noappledouble"@));
        assert(o[w.len() as int + 1] == MountOptView::Custom("noapplexattr"@));
        if let Some(b) = backend {
            assert(o[w.len() as int + 2] == MountOptView::Custom(mount_option_spec(b)));
        }
    }
    // What each place holds.
    assert forall|i: int| 0 <= i < o.len() implies {
        ||| o[i] == MountOptView::FsName("slicefs"@) && i == 0
        ||| o[i] == MountOptView::DefaultPermissions && i == 1
        ||| o[i] == MountOptView::NoAtime && noatime
        ||| o[i] == MountOptView::Custom("noappledouble"@) && macos
        ||| o[i] == MountOptView::Custom("noapplexattr"@) && macos
        ||| (macos && backend is Some && o[i] == MountOptView::Custom(
            mount_option_spec(backend->0),
        ))
    } by {
        if i >= w.len() {
            if i == w.len() {
                assert(o[i] == MountOptView::Custom("noappledouble"@));
            } else if i == w.len() + 1 {
                assert(o[i] == MountOptView::Custom("noapplexattr"@));
            }
        } else if i == 2 {
            assert(o[i] == w[2]);
        }
    }
    assert forall|b: FuseTBackend|
        o.contains(MountOptView::Custom(#[trigger] mount_option_spec(b))) <==> (macos && backend
            == Some(b)) by {
        if o.contains(MountOptView::Custom(mount_option_spec(b))) {
            let i = choose|i: int| 0 <= i < o.len() && o[i] == MountOptView::Custom(mount_option_spec(b));
            assert(o[i] == MountOptView::Custom(mount_option_spec(b)));
        }
        if macos && backend == Some(b) {
            assert(o[w.len() as int + 2] == MountOptView::Custom(mount_option_spec(b)));
        }
    }
    if o.contains(MountOptView::NoAtime) {
        let i = choose|i: int| 0 <= i < o.len() && o[i] == MountOptView::NoAtime;
        assert(o[i] == MountOptView::NoAtime);
    }
    if o.contains(MountOptView::ReadOnly) {
        let i = choose|i: int| 0 <= i < o.len() && o[i] == MountOptView::ReadOnly;
        assert(o[i] == MountOptView::ReadOnly);
    }
    if o.contains(MountOptView::Custom("noappledouble"@)) {
        let i = choose|i: int| 0 <= i < o.len() && o[i] == MountOptView::Custom("noappledouble"@);
        assert(o[i] == MountOptView::Custom("noappledouble"@));
    }
    if o.contains(MountOptView::Custom("noapplexattr"@)) {
        let i = choose|i: int| 0 <= i < o.len() && o[i] == MountOptView::Custom("noapplexattr"@);
        assert(o[i] == MountOptView::Custom("noapplexattr"@));
    }
}

// ── The override is idempotent ───────────────────────────────────────────────

/// The lines that the rewrite writes for one more input line.
pub open spec fn ini_step_lines(st: IniRewrite, line: Seq<char>, entry: Seq<char>) -> Seq<Seq<char>> {
    let t = trim(line);
    if starts_with(t, "["@) {
        if st.in_default && !st.injected {
            seq![entry, line]
        } else {
            seq![line]
        }
    } else if st.in_default && starts_with(t, "backend="@) {
        seq![entry]
    } else {
        seq![line]
    }
}

/// The lines that the rewrite writes for the input lines `ls`.
pub open spec fn ini_out_lines(ls: Seq<Seq<char>>, entry: Seq<char>) -> Seq<Seq<char>>
    decreases ls.len(),
{
    if ls.len() == 0 {
        Seq::empty()
    } else {
        ini_out_lines(ls.drop_last(), entry) + ini_step_lines(
            ini_fold(ls.drop_last(), entry),
            ls.last(),
            entry,
        )
    }
}

/// The lines of `ini` with `backend=<backend>` set (see [`inject_backend_spec`]).
pub open spec fn inject_lines(ini: Seq<char>, backend: Seq<char>) -> Seq<Seq<char>> {
    let entry = "backend="@ + backend;
    let st = ini_fold(lines(ini), entry);
    let tail = if st.injected {
        Seq::empty()
    } else if st.in_default {
        seq![entry]
    } else {
        seq!["[Default]"@, entry]
    };
    ini_out_lines(lines(ini), entry) + tail
}

/// Trimmed, `entry` is an entry line and no section header.
pub open spec fn entry_shaped(entry: Seq<char>) -> bool {
    starts_with(trim(entry), "backend="@) && !starts_with(trim(entry), "["@)
}

proof fn lemma_fold_push(ls: Seq<Seq<char>>, x: Seq<char>, entry: Seq<char>)
    ensures
        ini_fold(ls.push(x), entry) == ini_step(ini_fold(ls, entry), x, entry),
{
    assert(ls.push(x).drop_last() =~= ls);
}

proof fn lemma_join_two(xs: Seq<Seq<char>>, a: Seq<char>, b: Seq<char>)
    ensures
        join_lines(xs + seq![a, b]) == join_lines(xs) + a + "\n"@ + b + "\n"@,
        join_lines(xs + seq![a]) == join_lines(xs) + a + "\n"@,
{
    reveal_strlit("\n");
    assert("\n"@ =~= seq!['\n']);
    assert((xs + seq![a, b]).drop_last() =~= xs + seq![a]);
    assert((xs + seq![a, b]).last() == b);
    assert((xs + seq![a]).drop_last() =~= xs);
    assert((xs + seq![a]).last() == a);
    assert(join_lines(xs + seq![a]) == join_lines(xs) + a + seq!['\n']);
    assert(join_lines(xs + seq![a, b]) == join_lines(xs + seq![a]) + b + seq!['\n']);
    assert(join_lines(xs + seq![a, b]) =~= join_lines(xs) + a + "\n"@ + b + "\n"@);
    assert(join_lines(xs + seq![a]) =~= join_lines(xs) + a + "\n"@);
}

/// The rewrite's text is its lines joined.
proof fn lemma_fold_out(ls: Seq<Seq<char>>, entry: Seq<char>)
    ensures
        ini_fold(ls, entry).out == join_lines(ini_out_lines(ls, entry)),
    decreases ls.len(),
{
    if ls.len() > 0 {
        let d = ls.drop_last();
        lemma_fold_out(d, entry);
        let x = ini_out_lines(d, entry);
        let st = ini_fold(d, entry);
        let line = ls.last();
        lemma_join_two(x, entry, line);
        lemma_join_two(x, line, line);
        let t = trim(line);
        if starts_with(t, "["@) && st.in_default && !st.injected {
            assert(st.out + entry + "\n"@ + line + "\n"@ =~= join_lines(x) + entry + "\n"@ + line
                + "\n"@);
        }
    }
}

/// Rewriting the rewritten lines goes through the same states.
proof fn lemma_refold(ls: Seq<Seq<char>>, entry: Seq<char>)
    requires
        entry_shaped(entry),
    ensures
        ini_fold(ini_out_lines(ls, entry), entry) == ini_fold(ls, entry),
    decreases ls.len(),
{
    if ls.len() > 0 {
        let d = ls.drop_last();
        lemma_refold(d, entry);
        let x = ini_out_lines(d, entry);
        let st = ini_fold(d, entry);
        let line = ls.last();
        let t = trim(line);
        if starts_with(t, "["@) && st.in_default && !st.injected {
            assert(x + seq![entry, line] =~= x.push(entry).push(line));
            lemma_fold_push(x.push(entry), line, entry);
            lemma_fold_push(x, entry, entry);
            assert(ini_fold(ini_out_lines(ls, entry), entry) =~= ini_fold(ls, entry));
        } else if !starts_with(t, "["@) && st.in_default && starts_with(t, "backend="@) {
            assert(x + seq![entry] =~= x.push(entry));
            lemma_fold_push(x, entry, entry);
            assert(ini_fold(ini_out_lines(ls, entry), entry) =~= ini_fold(ls, entry));
        } else {
            assert(x + seq![line] =~= x.push(line));
            lemma_fold_push(x, line, entry);
        }
    }
}

proof fn lemma_out_lines_plain(ls: Seq<Seq<char>>, entry: Seq<char>)
    requires
        forall|i: int| 0 <= i < ls.len() ==> plain_line(#[trigger] ls[i]),
        plain_line(entry),
    ensures
        forall|i: int|
            0 <= i < ini_out_lines(ls, entry).len() ==> plain_line(
                #[trigger] ini_out_lines(ls, entry)[i],
            ),
    decreases ls.len(),
{
    if ls.len() > 0 {
        let d = ls.drop_last();
        assert forall|i: int| 0 <= i < d.len() implies plain_line(#[trigger] d[i]) by {
            assert(d[i] == ls[i]);
        }
        lemma_out_lines_plain(d, entry);
        let x = ini_out_lines(d, entry);
        let line = ls.last();
        assert(plain_line(ls[ls.len() - 1]));
        let y = ini_step_lines(ini_fold(d, entry), line, entry);
        assert forall|i: int| 0 <= i < y.len() implies plain_line(#[trigger] y[i]) by {
            assert(y[i] == line || y[i] == entry);
        }
        let o = ini_out_lines(ls, entry);
        assert(o == x + y);
        assert forall|i: int| 0 <= i < o.len() implies plain_line(#[trigger] o[i]) by {
            if i < x.len() {
                assert(o[i] == x[i]);
            } else {
                assert(o[i] == y[i - x.len()]);
            }
        }
    }
}

/// `trim_end` keeps a prefix, and keeps it past any character that is not whitespace.
proof fn lemma_trim_end_keeps(s: Seq<char>, k: int)
    requires
        0 <= k < s.len(),
        !is_whitespace(s[k]),
    ensures
        trim_end(s).len() > k,
        trim_end(s).len() <= s.len(),
        trim_end(s) == s.take(trim_end(s).len() as int),
    decreases s.len(),
{
    if is_whitespace(s.last()) {
        let d = s.drop_last();
        assert(k < s.len() - 1);
        assert(d[k] == s[k]);
        lemma_trim_end_keeps(d, k);
        assert(d.take(trim_end(d).len() as int) =~= s.take(trim_end(d).len() as int));
    } else {
        assert(s.take(s.len() as int) =~= s);
    }
}

/// The entry `backend=<backend>` is entry-shaped and, when `backend` holds no
/// line break, a plain line; `[Default]` is a plain header naming the section.
proof fn lemma_line_shapes(backend: Seq<char>)
    requires
        !backend.contains('\n'),
        !backend.contains('\r'),
    ensures
        entry_shaped("backend="@ + backend),
        plain_line("backend="@ + backend),
        plain_line("[Default]"@),
        starts_with(trim("[Default]"@), "["@),
        eq_ignore_ascii_case(trim("[Default]"@), "[Default]"@),
{
    reveal_strlit("backend=");
    reveal_strlit("[Default]");
    reveal_strlit("[");
    let k = "backend="@;
    let e = k + backend;
    assert(e[0] == 'b' && e[7] == '=');
    assert(trim_start(e) == e);
    lemma_trim_end_keeps(e, 7);
    let t = trim(e);
    assert(t == trim_end(e));
    let m = trim_end(e).len();
    assert(m >= 8);
    assert(t == e.take(m as int));
    assert forall|j: int| 0 <= j < 8 implies t[j] == k[j] by {
        assert(t[j] == e[j]);
    }
    assert(t.take(8) =~= k);
    assert(t[0] == 'b');
    assert(!starts_with(t, "["@)) by {
        if starts_with(t, "["@) {
            assert(t.take(1)[0] == t[0]);
        }
    }
    assert forall|j: int| 0 <= j < e.len() implies e[j] != '\n' && e[j] != '\r' by {
        if j >= 8 {
            assert(e[j] == backend[j - 8]);
            if e[j] == '\n' || e[j] == '\r' {
                assert(backend.contains(e[j]));
            }
        }
    }
    let d = "[Default]"@;
    assert(trim_start(d) == d);
    assert(trim_end(d) == d);
    assert(d.take(1) =~= "["@);
}

/// Setting the backend twice is setting it once: the override is idempotent,
/// when the ini text holds no `\r` and the backend value no line break.
pub proof fn law_injection_is_idempotent(ini: Seq<char>, backend: Seq<char>)
    requires
        !ini.contains('\r'),
        !backend.contains('\n'),
        !backend.contains('\r'),
    ensures
        inject_backend_spec(inject_backend_spec(ini, backend), backend) == inject_backend_spec(
            ini,
            backend,
        ),
{
    reveal_strlit("\n");
    reveal_strlit("[Default]\n");
    reveal_strlit("[Default]");
    let entry = "backend="@ + backend;
    let ls = lines(ini);
    let st = ini_fold(ls, entry);
    let x = ini_out_lines(ls, entry);
    let f = inject_lines(ini, backend);
    lemma_line_shapes(backend);
    lemma_fold_out(ls, entry);
    lemma_refold(ls, entry);
    lemma_lines_plain(ini);
    lemma_out_lines_plain(ls, entry);
    // The first override writes the lines `f`.
    let tail = f.subrange(x.len() as int, f.len() as int);
    assert(f =~= x + tail);
    lemma_join_append(x, tail);
    if st.injected {
        assert(tail =~= Seq::<Seq<char>>::empty());
        assert(join_lines(tail) =~= Seq::<char>::empty());
        assert(inject_backend_spec(ini, backend) =~= join_lines(f));
    } else if st.in_default {
        assert(tail =~= seq![entry]);
        let z = Seq::<Seq<char>>::empty();
        lemma_join_two(z, entry, entry);
        assert(z + seq![entry] =~= seq![entry]);
        assert(join_lines(z) =~= Seq::<char>::empty());
        assert(inject_backend_spec(ini, backend) =~= join_lines(f));
    } else {
        assert(tail =~= seq!["[Default]"@, entry]);
        let z = Seq::<Seq<char>>::empty();
        lemma_join_two(z, "[Default]"@, entry);
        assert(z + seq!["[Default]"@, entry] =~= seq!["[Default]"@, entry]);
        assert(join_lines(z) =~= Seq::<char>::empty());
        assert("[Default]\n"@ =~= "[Default]"@ + "\n"@);
        assert(join_lines(x).len() == 0 || join_lines(x).last() == '\n');
        assert(inject_backend_spec(ini, backend) =~= join_lines(f));
    }
    // The second reads those lines back and writes them again.
    assert forall|i: int| 0 <= i < f.len() implies plain_line(#[trigger] f[i]) by {
        if i < x.len() {
            assert(f[i] == x[i]);
        }
    }
    lemma_lines_join(f);
    let st2 = ini_fold(f, entry);
    if st.injected {
        assert(f =~= x);
    } else if st.in_default {
        assert(f =~= x.push(entry));
        lemma_fold_push(x, entry, entry);
    } else {
        assert(f =~= x.push("[Default]"@).push(entry));
        lemma_fold_push(x.push("[Default]"@), entry, entry);
        lemma_fold_push(x, "[Default]"@, entry);
    }
    assert(inject_backend_spec(join_lines(f), backend) =~= join_lines(f));
}

} // verus!

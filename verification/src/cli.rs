//! Command-line interface of the `slicefs` binary: the argument grammar and the
//! parsed command.
//!
//! Subcommands:
//! - `mount`    — mount a SliceFS volume at a mountpoint
//! - `unmount`  — unmount a SliceFS volume
//! - `seed`     — ingest files from a source directory into a store
//! - `gc`       — run offline garbage collection
//! - `snapshot` — create, list, and switch snapshots
//! - `stats`    — show store statistics (dedup ratio, block counts, etc.)
//! - `scrub`    — verify integrity of all stored blocks by re-hashing
//! - `reindex`  — rebuild the dedup index from the CAS contents
//! - `dedup-recover` — back up and rebuild the dedup index
//!
//! The grammar: the first argument is the program name. Long options are written
//! `--name value` or `--name=value`; flags are written `--name`. `--json` is global
//! and may stand before or after the subcommand. `--help`/`-h` (anywhere) and
//! `--version`/`-V` (before the subcommand) stop parsing. After `--` every
//! argument is positional. Giving an option twice is an error.

use vstd::prelude::*;
use vstd::string::StringExecFns;
use crate::text::{
    chars_eq_str, chars_of, parse_i32_range, parse_i32_spec, parse_unsigned_range,
    parse_unsigned_spec, range_starts_with, starts_with, string_from_chars, sub_chars,
};

verus! {

/// Why the arguments were refused (or why parsing stopped early).
#[derive(Debug, Clone, Copy, PartialEq, Eq, Structural)]
pub enum CliError {
    /// `--help`, `-h` or the `help` subcommand was given.
    DisplayHelp,
    /// `--version` or `-V` was given before the subcommand.
    DisplayVersion,
    /// An option that the current command does not know.
    UnknownArgument,
    /// A subcommand name that does not exist.
    InvalidSubcommand,
    /// No subcommand was given.
    MissingSubcommand,
    /// A required positional argument or option is missing.
    MissingRequiredArgument,
    /// More positional arguments than the command takes.
    UnexpectedArgument,
    /// An option that takes a value was given none.
    NoValue,
    /// A flag was given a value with `--flag=value`.
    UnexpectedValue,
    /// An option was given more than once.
    ArgumentConflict,
    /// A numeric option's value does not parse.
    InvalidValue,
}

/// SliceFS deduplicating filesystem: the parsed command line.
#[derive(Debug)]
pub struct Cli {
    /// Output structured JSON instead of human-readable text.
    pub json: bool,
    /// The subcommand.
    pub command: Cmd,
}

/// Subcommands available via the `slicefs` binary.
#[derive(Debug)]
pub enum Cmd {
    /// Mount a SliceFS store at the given mountpoint.
    Mount {
        /// Directory to mount the filesystem at.
        mountpoint: String,
        /// Path to the SliceFS block store directory (`--store`, required).
        store: String,
        /// Do not update access times (`--noatime`; on by default).
        noatime: bool,
        /// In-memory read cache size in bytes (`--cache-size`, 0 = disabled).
        cache_size: usize,
        /// Allow other users to access the mount (`--allow-other`).
        allow_other: bool,
        /// WAL durability strategy (`--wal-strategy`): per-op, periodic, flush-on-fsync, or no-wal.
        wal_strategy: Option<String>,
        /// Mount a specific snapshot read-only, by version number or name (`--snapshot`).
        snapshot: Option<String>,
        /// Automatically create a snapshot on clean unmount (`--auto-snapshot`).
        auto_snapshot: bool,
        /// Compressor name (`--compressor`, default `zstd`).
        compressor: String,
        /// Compressor level (`--compressor-level`).
        compressor_level: Option<i32>,
        /// FUSE-T backend on macOS (`--backend`): smb, nfs or fskit.
        backend: Option<String>,
        /// Allow a backend that is otherwise refused (`--force`).
        force: bool,
    },
    /// Unmount a SliceFS filesystem mounted at the given path.
    Unmount {
        /// Mountpoint to unmount.
        mountpoint: String,
        /// Store whose `mount.lock` is removed after unmounting (`--store`).
        store: Option<String>,
    },
    /// Seed a source directory tree into a SliceFS block store.
    Seed {
        /// Path to the SliceFS block store directory.
        store: String,
        /// Source directory to ingest.
        source_dir: String,
    },
    /// Run offline garbage collection on a SliceFS block store.
    Gc {
        /// Path to the SliceFS block store directory.
        store: String,
    },
    /// Manage snapshots for a SliceFS block store.
    Snapshot {
        /// The snapshot subcommand.
        action: SnapshotAction,
    },
    /// Show store statistics.
    Stats {
        /// Path to the SliceFS block store directory.
        store: String,
    },
    /// Verify integrity of all stored blocks by re-hashing content.
    Scrub {
        /// Path to the SliceFS block store directory.
        store: String,
    },
    /// Rebuild the dedup index from the CAS contents.
    Reindex {
        /// Path to the SliceFS block store directory (`--store`, required).
        store: String,
        /// Offline rebuild (`--offline`; on by default).
        offline: bool,
    },
    /// Back up the dedup index and rebuild it.
    DedupRecover {
        /// Path to the SliceFS block store directory (`--store`, required).
        store: String,
    },
}

/// Snapshot subcommands.
#[derive(Debug)]
pub enum SnapshotAction {
    /// Create a new snapshot of the current committed state.
    Create {
        /// Path to the SliceFS block store directory.
        store: String,
        /// Optional human-readable name/tag for the snapshot (`--name`).
        name: Option<String>,
    },
    /// List all snapshots in the store.
    List {
        /// Path to the SliceFS block store directory.
        store: String,
    },
    /// Switch the live filesystem root to a snapshot's root.
    Switch {
        /// Path to the SliceFS block store directory.
        store: String,
        /// Snapshot version number or name to switch to.
        version_or_name: String,
    },
}

// ── The model of a parsed command line ───────────────────────────────────────

/// [`Cli`] with every string taken by its characters.
pub struct CliView {
    pub json: bool,
    pub command: CmdView,
}

/// [`Cmd`] with every string taken by its characters.
pub enum CmdView {
    Mount {
        mountpoint: Seq<char>,
        store: Seq<char>,
        noatime: bool,
        cache_size: usize,
        allow_other: bool,
        wal_strategy: Option<Seq<char>>,
        snapshot: Option<Seq<char>>,
        auto_snapshot: bool,
        compressor: Seq<char>,
        compressor_level: Option<i32>,
        backend: Option<Seq<char>>,
        force: bool,
    },
    Unmount { mountpoint: Seq<char>, store: Option<Seq<char>> },
    Seed { store: Seq<char>, source_dir: Seq<char> },
    Gc { store: Seq<char> },
    Snapshot { action: SnapshotActionView },
    Stats { store: Seq<char> },
    Scrub { store: Seq<char> },
    Reindex { store: Seq<char>, offline: bool },
    DedupRecover { store: Seq<char> },
}

/// [`SnapshotAction`] with every string taken by its characters.
pub enum SnapshotActionView {
    Create { store: Seq<char>, name: Option<Seq<char>> },
    List { store: Seq<char> },
    Switch { store: Seq<char>, version_or_name: Seq<char> },
}

/// An optional string taken by its characters.
pub open spec fn opt_str_view(o: Option<String>) -> Option<Seq<char>> {
    match o {
        Some(s) => Some(s@),
        None => None,
    }
}

impl View for SnapshotAction {
    type V = SnapshotActionView;

    open spec fn view(&self) -> SnapshotActionView {
        match self {
            SnapshotAction::Create { store, name } => SnapshotActionView::Create {
                store: store@,
                name: opt_str_view(*name),
            },
            SnapshotAction::List { store } => SnapshotActionView::List { store: store@ },
            SnapshotAction::Switch { store, version_or_name } => SnapshotActionView::Switch {
                store: store@,
                version_or_name: version_or_name@,
            },
        }
    }
}

impl View for Cmd {
    type V = CmdView;

    open spec fn view(&self) -> CmdView {
        match self {
            Cmd::Mount {
                mountpoint,
                store,
                noatime,
                cache_size,
                allow_other,
                wal_strategy,
                snapshot,
                auto_snapshot,
                compressor,
                compressor_level,
                backend,
                force,
            } => CmdView::Mount {
                mountpoint: mountpoint@,
                store: store@,
                noatime: *noatime,
                cache_size: *cache_size,
                allow_other: *allow_other,
                wal_strategy: opt_str_view(*wal_strategy),
                snapshot: opt_str_view(*snapshot),
                auto_snapshot: *auto_snapshot,
                compressor: compressor@,
                compressor_level: *compressor_level,
                backend: opt_str_view(*backend),
                force: *force,
            },
            Cmd::Unmount { mountpoint, store } => CmdView::Unmount {
                mountpoint: mountpoint@,
                store: opt_str_view(*store),
            },
            Cmd::Seed { store, source_dir } => CmdView::Seed {
                store: store@,
                source_dir: source_dir@,
            },
            Cmd::Gc { store } => CmdView::Gc { store: store@ },
            Cmd::Snapshot { action } => CmdView::Snapshot { action: action@ },
            Cmd::Stats { store } => CmdView::Stats { store: store@ },
            Cmd::Scrub { store } => CmdView::Scrub { store: store@ },
            Cmd::Reindex { store, offline } => CmdView::Reindex {
                store: store@,
                offline: *offline,
            },
            Cmd::DedupRecover { store } => CmdView::DedupRecover { store: store@ },
        }
    }
}

impl View for Cli {
    type V = CliView;

    open spec fn view(&self) -> CliView {
        CliView { json: self.json, command: self.command@ }
    }
}

// ── The grammar ──────────────────────────────────────────────────────────────

/// The command whose arguments are being read.
#[derive(Debug, Clone, Copy, PartialEq, Eq, Structural)]
pub enum Ctx {
    Top,
    Mount,
    Unmount,
    Seed,
    Gc,
    Snapshot,
    Stats,
    Scrub,
    Reindex,
    DedupRecover,
    SnapCreate,
    SnapList,
    SnapSwitch,
}

/// The long options.
#[derive(Debug, Clone, Copy, PartialEq, Eq, Structural)]
pub enum Opt {
    Json,
    Store,
    Noatime,
    CacheSize,
    AllowOther,
    WalStrategy,
    Snapshot,
    AutoSnapshot,
    Compressor,
    CompressorLevel,
    Backend,
    Force,
    Name,
    Offline,
}

/// Whether option `o` takes a value (otherwise it is a flag).
pub open spec fn opt_takes_value(o: Opt) -> bool {
    match o {
        Opt::Json | Opt::Noatime | Opt::AllowOther | Opt::AutoSnapshot | Opt::Force
        | Opt::Offline => false,
        _ => true,
    }
}

fn takes_value(o: Opt) -> (r: bool)
    ensures
        r == opt_takes_value(o),
{
    match o {
        Opt::Json | Opt::Noatime | Opt::AllowOther | Opt::AutoSnapshot | Opt::Force
        | Opt::Offline => false,
        _ => true,
    }
}

/// Whether command `c` accepts option `o`.
pub open spec fn ctx_accepts(c: Ctx, o: Opt) -> bool {
    match o {
        Opt::Json => true,
        Opt::Store => c == Ctx::Mount || c == Ctx::Unmount || c == Ctx::Reindex || c
            == Ctx::DedupRecover,
        Opt::Name => c == Ctx::SnapCreate,
        Opt::Offline => c == Ctx::Reindex,
        _ => c == Ctx::Mount,
    }
}

fn accepts(c: Ctx, o: Opt) -> (r: bool)
    ensures
        r == ctx_accepts(c, o),
{
    match o {
        Opt::Json => true,
        Opt::Store => c == Ctx::Mount || c == Ctx::Unmount || c == Ctx::Reindex || c
            == Ctx::DedupRecover,
        Opt::Name => c == Ctx::SnapCreate,
        Opt::Offline => c == Ctx::Reindex,
        _ => c == Ctx::Mount,
    }
}

/// The option that `--<name>` denotes in command `c`.
pub open spec fn lookup_opt(c: Ctx, name: Seq<char>) -> Option<Opt> {
    let o = if name == "json"@ {
        Some(Opt::Json)
    } else if name == "store"@ {
        Some(Opt::Store)
    } else if name == "noatime"@ {
        Some(Opt::Noatime)
    } else if name == "cache-size"@ {
        Some(Opt::CacheSize)
    } else if name == "allow-other"@ {
        Some(Opt::AllowOther)
    } else if name == "wal-strategy"@ {
        Some(Opt::WalStrategy)
    } else if name == "snapshot"@ {
        Some(Opt::Snapshot)
    } else if name == "auto-snapshot"@ {
        Some(Opt::AutoSnapshot)
    } else if name == "compressor"@ {
        Some(Opt::Compressor)
    } else if name == "compressor-level"@ {
        Some(Opt::CompressorLevel)
    } else if name == "backend"@ {
        Some(Opt::Backend)
    } else if name == "force"@ {
        Some(Opt::Force)
    } else if name == "name"@ {
        Some(Opt::Name)
    } else if name == "offline"@ {
        Some(Opt::Offline)
    } else {
        None
    };
    match o {
        Some(x) => if ctx_accepts(c, x) {
            Some(x)
        } else {
            None
        },
        None => None,
    }
}

fn lookup(c: Ctx, name: &Vec<char>) -> (r: Option<Opt>)
    ensures
        r == lookup_opt(c, name@),
{
    let o = if chars_eq_str(name, "json") {
        Some(Opt::Json)
    } else if chars_eq_str(name, "store") {
        Some(Opt::Store)
    } else if chars_eq_str(name, "noatime") {
        Some(Opt::Noatime)
    } else if chars_eq_str(name, "cache-size") {
        Some(Opt::CacheSize)
    } else if chars_eq_str(name, "allow-other") {
        Some(Opt::AllowOther)
    } else if chars_eq_str(name, "wal-strategy") {
        Some(Opt::WalStrategy)
    } else if chars_eq_str(name, "snapshot") {
        Some(Opt::Snapshot)
    } else if chars_eq_str(name, "auto-snapshot") {
        Some(Opt::AutoSnapshot)
    } else if chars_eq_str(name, "compressor") {
        Some(Opt::Compressor)
    } else if chars_eq_str(name, "compressor-level") {
        Some(Opt::CompressorLevel)
    } else if chars_eq_str(name, "backend") {
        Some(Opt::Backend)
    } else if chars_eq_str(name, "force") {
        Some(Opt::Force)
    } else if chars_eq_str(name, "name") {
        Some(Opt::Name)
    } else if chars_eq_str(name, "offline") {
        Some(Opt::Offline)
    } else {
        None
    };
    match o {
        Some(x) => if accepts(c, x) {
            Some(x)
        } else {
            None
        },
        None => None,
    }
}

/// Whether command `c` chooses a subcommand (rather than taking positional arguments).
pub open spec fn is_selector(c: Ctx) -> bool {
    c == Ctx::Top || c == Ctx::Snapshot
}

/// The subcommand that the word `t` selects under command `c` (`Top` or `Snapshot`).
pub open spec fn select_sub(c: Ctx, t: Seq<char>) -> Result<Ctx, CliError> {
    if t == "help"@ {
        Err(CliError::DisplayHelp)
    } else if c == Ctx::Top {
        if t == "mount"@ {
            Ok(Ctx::Mount)
        } else if t == "unmount"@ {
            Ok(Ctx::Unmount)
        } else if t == "seed"@ {
            Ok(Ctx::Seed)
        } else if t == "gc"@ {
            Ok(Ctx::Gc)
        } else if t == "snapshot"@ {
            Ok(Ctx::Snapshot)
        } else if t == "stats"@ {
            Ok(Ctx::Stats)
        } else if t == "scrub"@ {
            Ok(Ctx::Scrub)
        } else if t == "reindex"@ {
            Ok(Ctx::Reindex)
        } else if t == "dedup-recover"@ {
            Ok(Ctx::DedupRecover)
        } else {
            Err(CliError::InvalidSubcommand)
        }
    } else {
        if t == "create"@ {
            Ok(Ctx::SnapCreate)
        } else if t == "list"@ {
            Ok(Ctx::SnapList)
        } else if t == "switch"@ {
            Ok(Ctx::SnapSwitch)
        } else {
            Err(CliError::InvalidSubcommand)
        }
    }
}

fn select(c: Ctx, t: &Vec<char>) -> (r: Result<Ctx, CliError>)
    ensures
        r == select_sub(c, t@),
{
    if chars_eq_str(t, "help") {
        Err(CliError::DisplayHelp)
    } else if c == Ctx::Top {
        if chars_eq_str(t, "mount") {
            Ok(Ctx::Mount)
        } else if chars_eq_str(t, "unmount") {
            Ok(Ctx::Unmount)
        } else if chars_eq_str(t, "seed") {
            Ok(Ctx::Seed)
        } else if chars_eq_str(t, "gc") {
            Ok(Ctx::Gc)
        } else if chars_eq_str(t, "snapshot") {
            Ok(Ctx::Snapshot)
        } else if chars_eq_str(t, "stats") {
            Ok(Ctx::Stats)
        } else if chars_eq_str(t, "scrub") {
            Ok(Ctx::Scrub)
        } else if chars_eq_str(t, "reindex") {
            Ok(Ctx::Reindex)
        } else if chars_eq_str(t, "dedup-recover") {
            Ok(Ctx::DedupRecover)
        } else {
            Err(CliError::InvalidSubcommand)
        }
    } else {
        if chars_eq_str(t, "create") {
            Ok(Ctx::SnapCreate)
        } else if chars_eq_str(t, "list") {
            Ok(Ctx::SnapList)
        } else if chars_eq_str(t, "switch") {
            Ok(Ctx::SnapSwitch)
        } else {
            Err(CliError::InvalidSubcommand)
        }
    }
}

/// How many positional arguments command `c` takes.
pub open spec fn max_positionals(c: Ctx) -> nat {
    match c {
        Ctx::Seed | Ctx::SnapSwitch => 2,
        Ctx::Mount | Ctx::Unmount | Ctx::Gc | Ctx::Stats | Ctx::Scrub | Ctx::SnapCreate
        | Ctx::SnapList => 1,
        _ => 0,
    }
}

fn positional_capacity(c: Ctx) -> (r: usize)
    ensures
        r == max_positionals(c),
{
    match c {
        Ctx::Seed | Ctx::SnapSwitch => 2,
        Ctx::Mount | Ctx::Unmount | Ctx::Gc | Ctx::Stats | Ctx::Scrub | Ctx::SnapCreate
        | Ctx::SnapList => 1,
        _ => 0,
    }
}

/// Whether `v` is an acceptable value for option `o` (numeric options must parse).
pub open spec fn value_ok(o: Opt, v: Seq<char>) -> bool {
    match o {
        Opt::CacheSize => parse_unsigned_spec(v, usize::MAX as nat) is Some,
        Opt::CompressorLevel => parse_i32_spec(v) is Some,
        _ => true,
    }
}

/// Whether an argument can serve as the value of the option before it: it does not
/// look like an option, or it is a lone `-`.
pub open spec fn is_value_token(t: Seq<char>) -> bool {
    !starts_with(t, "-"@) || t == "-"@
}

/// What has been read so far.
#[verifier::ext_equal]
pub struct ScanState {
    /// The command whose arguments are being read.
    pub ctx: Ctx,
    /// The options given, in order.
    pub keys: Seq<Opt>,
    /// Their values (empty for flags).
    pub vals: Seq<Seq<char>>,
    /// The positional arguments given.
    pub pos: Seq<Seq<char>>,
    /// Whether `--` has been seen.
    pub raw: bool,
}

/// The state before any argument is read.
pub open spec fn scan_start() -> ScanState {
    ScanState {
        ctx: Ctx::Top,
        keys: Seq::empty(),
        vals: Seq::empty(),
        pos: Seq::empty(),
        raw: false,
    }
}

/// `st` with option `o` added, with value `v`.
pub open spec fn with_opt(st: ScanState, o: Opt, v: Seq<char>) -> ScanState {
    ScanState { keys: st.keys.push(o), vals: st.vals.push(v), ..st }
}

/// The name part and the inline value of the long option `body` (text after `--`).
pub open spec fn split_long(body: Seq<char>) -> (Seq<char>, Option<Seq<char>>) {
    match body.index_of_first('=') {
        Some(k) => (body.take(k), Some(body.skip(k + 1))),
        None => (body, None),
    }
}

/// Reads the arguments `toks[i..]`, starting from state `st`.
pub open spec fn scan(toks: Seq<Seq<char>>, i: int, st: ScanState) -> Result<ScanState, CliError>
    decreases toks.len() - i,
{
    if i < 0 || i >= toks.len() {
        Ok(st)
    } else {
        let t = toks[i];
        if !st.raw && t == "--"@ {
            scan(toks, i + 1, ScanState { raw: true, ..st })
        } else if !st.raw && (t == "--help"@ || t == "-h"@) {
            Err(CliError::DisplayHelp)
        } else if !st.raw && st.ctx == Ctx::Top && (t == "--version"@ || t == "-V"@) {
            Err(CliError::DisplayVersion)
        } else if !st.raw && starts_with(t, "--"@) {
            let (name, inline) = split_long(t.skip(2));
            match lookup_opt(st.ctx, name) {
                None => Err(CliError::UnknownArgument),
                Some(o) => {
                    if st.keys.contains(o) {
                        Err(CliError::ArgumentConflict)
                    } else if opt_takes_value(o) {
                        match inline {
                            Some(v) => if value_ok(o, v) {
                                scan(toks, i + 1, with_opt(st, o, v))
                            } else {
                                Err(CliError::InvalidValue)
                            },
                            None => if i + 1 < toks.len() && is_value_token(toks[i + 1]) {
                                if value_ok(o, toks[i + 1]) {
                                    scan(toks, i + 2, with_opt(st, o, toks[i + 1]))
                                } else {
                                    Err(CliError::InvalidValue)
                                }
                            } else {
                                Err(CliError::NoValue)
                            },
                        }
                    } else {
                        match inline {
                            Some(_) => Err(CliError::UnexpectedValue),
                            None => scan(toks, i + 1, with_opt(st, o, Seq::empty())),
                        }
                    }
                },
            }
        } else if !st.raw && t.len() >= 2 && t[0] == '-' {
            Err(CliError::UnknownArgument)
        } else if is_selector(st.ctx) {
            if st.raw {
                Err(CliError::UnexpectedArgument)
            } else {
                match select_sub(st.ctx, t) {
                    Ok(c) => scan(toks, i + 1, ScanState { ctx: c, ..st }),
                    Err(e) => Err(e),
                }
            }
        } else if st.pos.len() >= max_positionals(st.ctx) {
            Err(CliError::UnexpectedArgument)
        } else {
            scan(toks, i + 1, ScanState { pos: st.pos.push(t), ..st })
        }
    }
}

/// The value given for option `o`, if it was given.
pub open spec fn opt_value(st: ScanState, o: Opt) -> Option<Seq<char>> {
    opt_value_in(st.keys, st.vals, o)
}

/// The value that `vals` holds for option `o`, if `keys` holds it.
pub open spec fn opt_value_in(keys: Seq<Opt>, vals: Seq<Seq<char>>, o: Opt) -> Option<Seq<char>> {
    match keys.index_of_first(o) {
        Some(k) => Some(vals[k]),
        None => None,
    }
}

/// Whether option `o` was given.
pub open spec fn has_opt(st: ScanState, o: Opt) -> bool {
    st.keys.index_of_first(o) is Some
}

/// The value of a positional argument or option that the grammar requires.
pub open spec fn required(v: Option<Seq<char>>) -> Seq<char> {
    v.unwrap()
}

/// The command line that the read arguments describe.
pub open spec fn build(st: ScanState) -> Result<CliView, CliError> {
    let json = has_opt(st, Opt::Json);
    let need = max_positionals(st.ctx);
    if is_selector(st.ctx) {
        Err(CliError::MissingSubcommand)
    } else if st.pos.len() < need {
        Err(CliError::MissingRequiredArgument)
    } else if (st.ctx == Ctx::Mount || st.ctx == Ctx::Reindex || st.ctx == Ctx::DedupRecover)
        && !has_opt(st, Opt::Store) {
        Err(CliError::MissingRequiredArgument)
    } else {
        let command = match st.ctx {
            Ctx::Mount => CmdView::Mount {
                mountpoint: st.pos[0],
                store: required(opt_value(st, Opt::Store)),
                noatime: true,
                cache_size: match opt_value(st, Opt::CacheSize) {
                    Some(v) => match parse_unsigned_spec(v, usize::MAX as nat) {
                        Some(n) => n as usize,
                        None => 0,
                    },
                    None => 0,
                },
                allow_other: has_opt(st, Opt::AllowOther),
                wal_strategy: opt_value(st, Opt::WalStrategy),
                snapshot: opt_value(st, Opt::Snapshot),
                auto_snapshot: has_opt(st, Opt::AutoSnapshot),
                compressor: match opt_value(st, Opt::Compressor) {
                    Some(v) => v,
                    None => "zstd"@,
                },
                compressor_level: match opt_value(st, Opt::CompressorLevel) {
                    Some(v) => match parse_i32_spec(v) {
                        Some(n) => Some(n as i32),
                        None => None,
                    },
                    None => None,
                },
                backend: opt_value(st, Opt::Backend),
                force: has_opt(st, Opt::Force),
            },
            Ctx::Unmount => CmdView::Unmount {
                mountpoint: st.pos[0],
                store: opt_value(st, Opt::Store),
            },
            Ctx::Seed => CmdView::Seed { store: st.pos[0], source_dir: st.pos[1] },
            Ctx::Gc => CmdView::Gc { store: st.pos[0] },
            Ctx::Stats => CmdView::Stats { store: st.pos[0] },
            Ctx::Scrub => CmdView::Scrub { store: st.pos[0] },
            Ctx::Reindex => CmdView::Reindex {
                store: required(opt_value(st, Opt::Store)),
                offline: true,
            },
            Ctx::DedupRecover => CmdView::DedupRecover {
                store: required(opt_value(st, Opt::Store)),
            },
            Ctx::SnapCreate => CmdView::Snapshot {
                action: SnapshotActionView::Create {
                    store: st.pos[0],
                    name: opt_value(st, Opt::Name),
                },
            },
            Ctx::SnapList => CmdView::Snapshot {
                action: SnapshotActionView::List { store: st.pos[0] },
            },
            _ => CmdView::Snapshot {
                action: SnapshotActionView::Switch {
                    store: st.pos[0],
                    version_or_name: st.pos[1],
                },
            },
        };
        Ok(CliView { json, command })
    }
}

/// The arguments after the program name.
pub open spec fn after_program_name(args: Seq<Seq<char>>) -> Seq<Seq<char>> {
    if args.len() == 0 {
        args
    } else {
        args.drop_first()
    }
}

/// What the command line `args` (program name first) parses to.
pub open spec fn parse_spec(args: Seq<Seq<char>>) -> Result<CliView, CliError> {
    match scan(after_program_name(args), 0, scan_start()) {
        Ok(st) => build(st),
        Err(e) => Err(e),
    }
}

/// The arguments taken by their characters.
pub open spec fn args_view(args: Seq<&str>) -> Seq<Seq<char>> {
    Seq::new(args.len(), |i: int| args[i]@)
}

// ── Reading the arguments ─────────────────────────────────────────────────────

/// The character vectors of `toks`, each taken by its characters.
pub open spec fn chars_view(toks: Seq<Vec<char>>) -> Seq<Seq<char>> {
    Seq::new(toks.len(), |i: int| toks[i]@)
}

/// The scan state that the exec variables stand for.
pub open spec fn state_of(
    ctx: Ctx,
    keys: Seq<Opt>,
    vals: Seq<Vec<char>>,
    pos: Seq<Vec<char>>,
    raw: bool,
) -> ScanState {
    ScanState { ctx, keys, vals: chars_view(vals), pos: chars_view(pos), raw }
}

fn find_key(keys: &Vec<Opt>, o: Opt) -> (r: Option<usize>)
    ensures
        r matches Some(k) ==> keys@.index_of_first(o) == Some(k as int),
        r is None ==> keys@.index_of_first(o) is None,
        r is None <==> !keys@.contains(o),
        r matches Some(k) ==> k < keys@.len() && keys@[k as int] == o,
{
    let mut i: usize = 0;
    while i < keys.len()
        invariant
            i <= keys.len(),
            forall|k: int| 0 <= k < i ==> keys@[k] != o,
        decreases keys.len() - i,
    {
        if keys[i] == o {
            proof {
                keys@.index_of_first_ensures(o);
            }
            return Some(i);
        }
        i += 1;
    }
    proof {
        keys@.index_of_first_ensures(o);
    }
    None
}

/// The first position of `c` in `v[lo..hi]`, as an index into `v`.
fn find_char(v: &Vec<char>, lo: usize, hi: usize, c: char) -> (r: Option<usize>)
    requires
        lo <= hi <= v.len(),
    ensures
        r matches Some(k) ==> lo <= k < hi && v@.subrange(lo as int, hi as int).index_of_first(c)
            == Some(k - lo),
        r is None ==> v@.subrange(lo as int, hi as int).index_of_first(c) is None,
{
    let ghost s = v@.subrange(lo as int, hi as int);
    let mut i = lo;
    while i < hi
        invariant
            lo <= i <= hi <= v.len(),
            s == v@.subrange(lo as int, hi as int),
            forall|k: int| 0 <= k < i - lo ==> s[k] != c,
        decreases hi - i,
    {
        if v[i] == c {
            proof {
                s.index_of_first_ensures(c);
                assert(s[i - lo] == c);
            }
            return Some(i);
        }
        i += 1;
    }
    proof {
        s.index_of_first_ensures(c);
    }
    None
}

fn starts_with_str(v: &Vec<char>, p: &str) -> (r: bool)
    ensures
        r == starts_with(v@, p@),
{
    let w = chars_of(p);
    assert(v@.subrange(0, v@.len() as int) =~= v@);
    range_starts_with(v, 0, v.len(), &w)
}

fn is_value_tok(v: &Vec<char>) -> (r: bool)
    ensures
        r == is_value_token(v@),
{
    !starts_with_str(v, "-") || chars_eq_str(v, "-")
}

fn check_value(o: Opt, v: &Vec<char>) -> (r: bool)
    ensures
        r == value_ok(o, v@),
{
    assert(v@.subrange(0, v@.len() as int) =~= v@);
    match o {
        Opt::CacheSize => parse_unsigned_range(v, 0, v.len(), usize::MAX as u64).is_some(),
        Opt::CompressorLevel => parse_i32_range(v, 0, v.len()).is_some(),
        _ => true,
    }
}

fn value_of(keys: &Vec<Opt>, vals: &Vec<Vec<char>>, o: Opt) -> (r: Option<String>)
    requires
        keys.len() == vals.len(),
    ensures
        opt_str_view(r) == opt_value_in(keys@, chars_view(vals@), o),
{
    match find_key(keys, o) {
        Some(k) => {
            assert(chars_view(vals@)[k as int] == vals@[k as int]@);
            Some(string_from_chars(&vals[k]))
        },
        None => None,
    }
}

fn has_key(keys: &Vec<Opt>, o: Opt) -> (r: bool)
    ensures
        r == keys@.index_of_first(o) is Some,
{
    find_key(keys, o).is_some()
}

fn required_value(keys: &Vec<Opt>, vals: &Vec<Vec<char>>, o: Opt) -> (r: String)
    requires
        keys.len() == vals.len(),
        keys@.index_of_first(o) is Some,
    ensures
        r@ == required(opt_value_in(keys@, chars_view(vals@), o)),
{
    match find_key(keys, o) {
        Some(k) => {
            assert(chars_view(vals@)[k as int] == vals@[k as int]@);
            string_from_chars(&vals[k])
        },
        None => String::new(),
    }
}

fn build_cli(ctx: Ctx, keys: &Vec<Opt>, vals: &Vec<Vec<char>>, pos: &Vec<Vec<char>>, Ghost(raw): Ghost<bool>) -> (r: Result<Cli, CliError>)
    requires
        keys.len() == vals.len(),
    ensures
        match build(state_of(ctx, keys@, vals@, pos@, raw)) {
            Ok(v) => r is Ok && r->Ok_0@ == v,
            Err(e) => r == Err::<Cli, CliError>(e),
        },
{
    let json = has_key(keys, Opt::Json);
    let need = positional_capacity(ctx);
    if ctx == Ctx::Top || ctx == Ctx::Snapshot {
        return Err(CliError::MissingSubcommand);
    }
    if pos.len() < need {
        return Err(CliError::MissingRequiredArgument);
    }
    if (ctx == Ctx::Mount || ctx == Ctx::Reindex || ctx == Ctx::DedupRecover) && !has_key(keys, Opt::Store) {
        return Err(CliError::MissingRequiredArgument);
    }
    let command = match ctx {
        Ctx::Mount => {
            let cache_size: usize = match find_key(keys, Opt::CacheSize) {
                Some(k) => {
                    assert(vals@[k as int]@.subrange(0, vals@[k as int]@.len() as int) =~= vals@[k as int]@);
                    assert(chars_view(vals@)[k as int] == vals@[k as int]@);
                    match parse_unsigned_range(&vals[k], 0, vals[k].len(), usize::MAX as u64) {
                        Some(n) => n as usize,
                        None => 0,
                    }
                },
                None => 0,
            };
            let compressor_level: Option<i32> = match find_key(keys, Opt::CompressorLevel) {
                Some(k) => {
                    assert(vals@[k as int]@.subrange(0, vals@[k as int]@.len() as int) =~= vals@[k as int]@);
                    assert(chars_view(vals@)[k as int] == vals@[k as int]@);
                    parse_i32_range(&vals[k], 0, vals[k].len())
                },
                None => None,
            };
            let compressor = match value_of(keys, vals, Opt::Compressor) {
                Some(c) => c,
                None => String::from_str("zstd"),
            };
            Cmd::Mount {
                mountpoint: string_from_chars(&pos[0]),
                store: required_value(keys, vals, Opt::Store),
                noatime: true,
                cache_size,
                allow_other: has_key(keys, Opt::AllowOther),
                wal_strategy: value_of(keys, vals, Opt::WalStrategy),
                snapshot: value_of(keys, vals, Opt::Snapshot),
                auto_snapshot: has_key(keys, Opt::AutoSnapshot),
                compressor,
                compressor_level,
                backend: value_of(keys, vals, Opt::Backend),
                force: has_key(keys, Opt::Force),
            }
        },
        Ctx::Unmount => Cmd::Unmount {
            mountpoint: string_from_chars(&pos[0]),
            store: value_of(keys, vals, Opt::Store),
        },
        Ctx::Seed => Cmd::Seed {
            store: string_from_chars(&pos[0]),
            source_dir: string_from_chars(&pos[1]),
        },
        Ctx::Gc => Cmd::Gc { store: string_from_chars(&pos[0]) },
        Ctx::Stats => Cmd::Stats { store: string_from_chars(&pos[0]) },
        Ctx::Scrub => Cmd::Scrub { store: string_from_chars(&pos[0]) },
        Ctx::Reindex => Cmd::Reindex {
            store: required_value(keys, vals, Opt::Store),
            offline: true,
        },
        Ctx::DedupRecover => Cmd::DedupRecover { store: required_value(keys, vals, Opt::Store) },
        Ctx::SnapCreate => Cmd::Snapshot {
            action: SnapshotAction::Create {
                store: string_from_chars(&pos[0]),
                name: value_of(keys, vals, Opt::Name),
            },
        },
        Ctx::SnapList => Cmd::Snapshot {
            action: SnapshotAction::List { store: string_from_chars(&pos[0]) },
        },
        _ => Cmd::Snapshot {
            action: SnapshotAction::Switch {
                store: string_from_chars(&pos[0]),
                version_or_name: string_from_chars(&pos[1]),
            },
        },
    };
    Ok(Cli { json, command })
}

impl Cli {
    /// Parse the command line `args`, whose first element is the program name.
    pub fn try_parse_from(args: &[&str]) -> (r: Result<Cli, CliError>)
        ensures
            match parse_spec(args_view(args@)) {
                Ok(v) => r is Ok && r->Ok_0@ == v,
                Err(e) => r == Err::<Cli, CliError>(e),
            },
    {
        let ghost all = args_view(args@);
        let ghost toks_spec = after_program_name(all);
        let start: usize = if args.len() == 0 { 0 } else { 1 };
        let mut toks: Vec<Vec<char>> = Vec::new();
        let mut j = start;
        while j < args.len()
            invariant
                start <= j <= args.len(),
                start == (if args@.len() == 0 { 0usize } else { 1usize }),
                all == args_view(args@),
                chars_view(toks@) == all.subrange(start as int, j as int),
                toks@.len() == j - start,
                all.len() == args@.len(),
            decreases args.len() - j,
        {
            let c = chars_of(args[j]);
            let ghost old_toks = toks@;
            toks.push(c);
            assert(all[j as int] == c@);
            assert(toks@ == old_toks.push(c));
            assert forall|k: int| 0 <= k < toks@.len() implies chars_view(toks@)[k] == all.subrange(start as int, j + 1)[k] by {
                if k < old_toks.len() {
                    assert(chars_view(old_toks)[k] == all.subrange(start as int, j as int)[k]);
                }
            }
            j += 1;
            assert(chars_view(toks@) =~= all.subrange(start as int, j as int));
        }
        assert(chars_view(toks@) =~= toks_spec);
        let mut ctx = Ctx::Top;
        let mut keys: Vec<Opt> = Vec::new();
        let mut vals: Vec<Vec<char>> = Vec::new();
        let mut pos: Vec<Vec<char>> = Vec::new();
        let mut raw = false;
        let mut i: usize = 0;
        assert(state_of(ctx, keys@, vals@, pos@, raw) =~= scan_start());
        while i < toks.len()
            invariant
                i <= toks.len(),
                chars_view(toks@) == toks_spec,
                toks_spec == after_program_name(args_view(args@)),
                keys.len() == vals.len(),
                scan(toks_spec, 0, scan_start()) == scan(
                    toks_spec,
                    i as int,
                    state_of(ctx, keys@, vals@, pos@, raw),
                ),
            decreases toks.len() - i,
        {
            let ghost st = state_of(ctx, keys@, vals@, pos@, raw);
            let t = &toks[i];
            assert(toks_spec[i as int] == t@);
            if !raw && chars_eq_str(t, "--") {
                raw = true;
                i += 1;
                assert(state_of(ctx, keys@, vals@, pos@, raw) =~= ScanState { raw: true, ..st });
            } else if !raw && (chars_eq_str(t, "--help") || chars_eq_str(t, "-h")) {
                assert(scan(toks_spec, i as int, st) == Err::<ScanState, CliError>(CliError::DisplayHelp));
                return Err(CliError::DisplayHelp);
            } else if !raw && ctx == Ctx::Top && (chars_eq_str(t, "--version") || chars_eq_str(t, "-V")) {
                return Err(CliError::DisplayVersion);
            } else if !raw && starts_with_str(t, "--") {
                proof {
                    reveal_strlit("--");
                }
                let ghost body = t@.skip(2);
                assert(t@.subrange(2, t@.len() as int) =~= body);
                let eq = find_char(t, 2, t.len(), '=');
                let (name, inline): (Vec<char>, Option<Vec<char>>) = match eq {
                    Some(k) => {
                        assert(t@.subrange(2, k as int) =~= body.take(k - 2));
                        assert(t@.subrange(k + 1, t@.len() as int) =~= body.skip(k - 2 + 1));
                        (sub_chars(t, 2, k), Some(sub_chars(t, k + 1, t.len())))
                    },
                    None => (sub_chars(t, 2, t.len()), None),
                };
                assert(name@ == split_long(body).0);
                assert(inline matches Some(v) ==> split_long(body).1 == Some(v@));
                assert(inline is None ==> split_long(body).1 is None);
                match lookup(ctx, &name) {
                    None => {
                        return Err(CliError::UnknownArgument);
                    },
                    Some(o) => {
                        if find_key(&keys, o).is_some() {
                            return Err(CliError::ArgumentConflict);
                        }
                        if takes_value(o) {
                            match inline {
                                Some(v) => {
                                    if !check_value(o, &v) {
                                        return Err(CliError::InvalidValue);
                                    }
                                    let ghost gv = v@;
                                    keys.push(o);
                                    vals.push(v);
                                    i += 1;
                                    assert(state_of(ctx, keys@, vals@, pos@, raw) =~= with_opt(st, o, gv));
                                },
                                None => {
                                    if i + 1 < toks.len() && is_value_tok(&toks[i + 1]) {
                                        assert(toks_spec[i + 1] == toks@[i + 1]@);
                                        if !check_value(o, &toks[i + 1]) {
                                            return Err(CliError::InvalidValue);
                                        }
                                        let v = toks[i + 1].clone();
                                        let ghost gv = v@;
                                        assert(gv == toks_spec[i + 1]);
                                        keys.push(o);
                                        vals.push(v);
                                        i += 2;
                                        assert(state_of(ctx, keys@, vals@, pos@, raw) =~= with_opt(st, o, gv));
                                    } else {
                                        return Err(CliError::NoValue);
                                    }
                                },
                            }
                        } else {
                            match inline {
                                Some(_) => {
                                    return Err(CliError::UnexpectedValue);
                                },
                                None => {
                                    keys.push(o);
                                    vals.push(Vec::new());
                                    i += 1;
                                    assert(state_of(ctx, keys@, vals@, pos@, raw) =~= with_opt(st, o, Seq::empty()));
                                },
                            }
                        }
                    },
                }
            } else if !raw && t.len() >= 2 && t[0] == '-' {
                return Err(CliError::UnknownArgument);
            } else if ctx == Ctx::Top || ctx == Ctx::Snapshot {
                if raw {
                    return Err(CliError::UnexpectedArgument);
                }
                match select(ctx, t) {
                    Ok(c) => {
                        ctx = c;
                        i += 1;
                        assert(state_of(ctx, keys@, vals@, pos@, raw) =~= ScanState { ctx: c, ..st });
                    },
                    Err(e) => {
                        return Err(e);
                    },
                }
            } else {
                if pos.len() >= positional_capacity(ctx) {
                    return Err(CliError::UnexpectedArgument);
                }
                let ghost gt = t@;
                pos.push(t.clone());
                i += 1;
                assert(state_of(ctx, keys@, vals@, pos@, raw) =~= ScanState { pos: st.pos.push(gt), ..st });
            }
        }
        build_cli(ctx, &keys, &vals, &pos, Ghost(raw))
    }
}

// ── `--json` is global ────────────────────────────────────────────────────────

/// `r` with the `--json` flag set, where it parsed.
pub open spec fn with_json(r: Result<CliView, CliError>) -> Result<CliView, CliError> {
    match r {
        Ok(v) => Ok(CliView { json: true, ..v }),
        Err(e) => Err(e),
    }
}

/// Whether the argument `t` is the long option `--json` (with or without a value).
pub open spec fn names_json(t: Seq<char>) -> bool {
    starts_with(t, "--"@) && split_long(t.skip(2)).0 == "json"@
}

/// `b` is the state `a` with the `--json` flag recorded at place `j` of its options.
pub open spec fn json_added(a: ScanState, b: ScanState, j: int) -> bool {
    &&& 0 <= j <= a.keys.len()
    &&& a.keys.len() == a.vals.len()
    &&& !a.keys.contains(Opt::Json)
    &&& b.keys == a.keys.insert(j, Opt::Json)
    &&& b.vals == a.vals.insert(j, Seq::<char>::empty())
    &&& b.ctx == a.ctx
    &&& b.pos == a.pos
    &&& b.raw == a.raw
}

/// The two readings agree but for the `--json` flag that the second one holds.
pub open spec fn json_related(r1: Result<ScanState, CliError>, r2: Result<ScanState, CliError>) -> bool {
    match (r1, r2) {
        (Ok(a), Ok(b)) => exists|j: int| #[trigger] json_added(a, b, j),
        (Err(e1), Err(e2)) => e1 == e2,
        _ => false,
    }
}

/// Recording `--json` among the options changes no lookup of another option.
proof fn lemma_json_lookup(keys: Seq<Opt>, vals: Seq<Seq<char>>, j: int, o: Opt)
    requires
        0 <= j <= keys.len(),
        keys.len() == vals.len(),
        o != Opt::Json,
    ensures
        keys.insert(j, Opt::Json).contains(o) == keys.contains(o),
        (keys.insert(j, Opt::Json).index_of_first(o) is Some) == (keys.index_of_first(o) is Some),
        opt_value_in(keys.insert(j, Opt::Json), vals.insert(j, Seq::<char>::empty()), o)
            == opt_value_in(keys, vals, o),
{
    let k2 = keys.insert(j, Opt::Json);
    let v2 = vals.insert(j, Seq::<char>::empty());
    keys.insert_ensures(j, Opt::Json);
    vals.insert_ensures(j, Seq::<char>::empty());
    keys.index_of_first_ensures(o);
    k2.index_of_first_ensures(o);
    if keys.contains(o) {
        let k = keys.index_of_first(o).unwrap();
        let kk = if k < j { k } else { k + 1 };
        assert(k2[kk] == o);
        assert(k2.contains(o));
        let m = k2.index_of_first(o).unwrap();
        if m < kk {
            if m < j {
                assert(k2[m] == keys[m]);
            } else if m > j {
                assert(k2[m] == keys[m - 1]);
            }
        }
        assert(m == kk);
        assert(v2[kk] == vals[k]);
    } else {
        if k2.contains(o) {
            let m = choose|m: int| 0 <= m < k2.len() && k2[m] == o;
            if m < j {
                assert(k2[m] == keys[m]);
            } else if m > j {
                assert(k2[m] == keys[m - 1]);
            }
        }
    }
}

/// Adding an option other than `--json` to both states keeps them related.
proof fn lemma_json_with_opt(a: ScanState, b: ScanState, j: int, o: Opt, v: Seq<char>)
    requires
        json_added(a, b, j),
        o != Opt::Json,
    ensures
        json_added(with_opt(a, o, v), with_opt(b, o, v), j),
{
    let a2 = with_opt(a, o, v);
    let b2 = with_opt(b, o, v);
    assert(b2.keys =~= a2.keys.insert(j, Opt::Json));
    assert(b2.vals =~= a2.vals.insert(j, Seq::<char>::empty()));
    if a2.keys.contains(Opt::Json) {
        let m = choose|m: int| 0 <= m < a2.keys.len() && a2.keys[m] == Opt::Json;
        assert(m < a.keys.len() ==> a.keys[m] == Opt::Json);
    }
}

/// Reading `t1` from `i` in state `a`, and reading `t2` (which holds the same
/// arguments `d` places later) from `i + d` in `a` with `--json` recorded, give
/// related results, when no argument left names `--json`.
proof fn lemma_scan_json(
    t1: Seq<Seq<char>>,
    t2: Seq<Seq<char>>,
    d: int,
    i: int,
    a: ScanState,
    b: ScanState,
    j: int,
)
    requires
        0 <= i,
        0 <= d,
        t2.len() == t1.len() + d,
        forall|k: int| i <= k < t1.len() ==> t2[k + d] == #[trigger] t1[k],
        forall|k: int| i <= k < t1.len() ==> !names_json(#[trigger] t1[k]),
        json_added(a, b, j),
    ensures
        json_related(scan(t1, i, a), scan(t2, i + d, b)),
    decreases t1.len() - i,
{
    if i >= t1.len() {
        assert(json_added(a, b, j));
    } else {
        let t = t1[i];
        assert(t2[i + d] == t);
        assert(!names_json(t));
        if !a.raw && t == "--"@ {
            lemma_scan_json(t1, t2, d, i + 1, ScanState { raw: true, ..a }, ScanState { raw: true, ..b }, j);
        } else if !a.raw && (t == "--help"@ || t == "-h"@) {
        } else if !a.raw && a.ctx == Ctx::Top && (t == "--version"@ || t == "-V"@) {
        } else if !a.raw && starts_with(t, "--"@) {
            let (name, inline) = split_long(t.skip(2));
            match lookup_opt(a.ctx, name) {
                None => {},
                Some(o) => {
                    reveal_strlit("json");
                    assert(o != Opt::Json);
                    lemma_json_lookup(a.keys, a.vals, j, o);
                    if a.keys.contains(o) {
                    } else if opt_takes_value(o) {
                        match inline {
                            Some(v) => {
                                if value_ok(o, v) {
                                    lemma_json_with_opt(a, b, j, o, v);
                                    lemma_scan_json(t1, t2, d, i + 1, with_opt(a, o, v), with_opt(b, o, v), j);
                                }
                            },
                            None => {
                                if i + 1 < t1.len() && is_value_token(t1[i + 1]) {
                                    assert(t2[i + 1 + d] == t1[i + 1]);
                                    if value_ok(o, t1[i + 1]) {
                                        lemma_json_with_opt(a, b, j, o, t1[i + 1]);
                                        lemma_scan_json(t1, t2, d, i + 2, with_opt(a, o, t1[i + 1]), with_opt(b, o, t1[i + 1]), j);
                                    }
                                }
                            },
                        }
                    } else {
                        match inline {
                            Some(_) => {},
                            None => {
                                lemma_json_with_opt(a, b, j, o, Seq::empty());
                                lemma_scan_json(t1, t2, d, i + 1, with_opt(a, o, Seq::empty()), with_opt(b, o, Seq::empty()), j);
                            },
                        }
                    }
                },
            }
        } else if !a.raw && t.len() >= 2 && t[0] == '-' {
        } else if is_selector(a.ctx) {
            if !a.raw {
                match select_sub(a.ctx, t) {
                    Ok(c) => {
                        lemma_scan_json(t1, t2, d, i + 1, ScanState { ctx: c, ..a }, ScanState { ctx: c, ..b }, j);
                    },
                    Err(_) => {},
                }
            }
        } else if a.pos.len() >= max_positionals(a.ctx) {
        } else {
            lemma_scan_json(t1, t2, d, i + 1, ScanState { pos: a.pos.push(t), ..a }, ScanState { pos: b.pos.push(t), ..b }, j);
        }
    }
}

/// Related readings build the same command line, but for the `--json` flag.
proof fn lemma_build_json(r1: Result<ScanState, CliError>, r2: Result<ScanState, CliError>)
    requires
        json_related(r1, r2),
    ensures
        match r2 {
            Ok(b) => build(b),
            Err(e) => Err(e),
        } == with_json(match r1 {
            Ok(a) => build(a),
            Err(e) => Err(e),
        }),
{
    match (r1, r2) {
        (Ok(a), Ok(b)) => {
            let j = choose|j: int| #[trigger] json_added(a, b, j);
            assert(json_added(a, b, j));
            a.keys.insert_ensures(j, Opt::Json);
            b.keys.index_of_first_ensures(Opt::Json);
            a.keys.index_of_first_ensures(Opt::Json);
            assert(b.keys[j] == Opt::Json);
            assert(has_opt(b, Opt::Json));
            assert(!has_opt(a, Opt::Json));
            lemma_json_lookup(a.keys, a.vals, j, Opt::Store);
            lemma_json_lookup(a.keys, a.vals, j, Opt::CacheSize);
            lemma_json_lookup(a.keys, a.vals, j, Opt::AllowOther);
            lemma_json_lookup(a.keys, a.vals, j, Opt::WalStrategy);
            lemma_json_lookup(a.keys, a.vals, j, Opt::Snapshot);
            lemma_json_lookup(a.keys, a.vals, j, Opt::AutoSnapshot);
            lemma_json_lookup(a.keys, a.vals, j, Opt::Compressor);
            lemma_json_lookup(a.keys, a.vals, j, Opt::CompressorLevel);
            lemma_json_lookup(a.keys, a.vals, j, Opt::Backend);
            lemma_json_lookup(a.keys, a.vals, j, Opt::Force);
            lemma_json_lookup(a.keys, a.vals, j, Opt::Name);
        },
        _ => {},
    }
}

/// `--json` is global: given before the subcommand it sets the JSON flag and
/// changes nothing else in what the command line parses to (or in the error
/// it is refused with), when no other argument names `--json`.
pub proof fn law_json_before_subcommand(prog: Seq<char>, rest: Seq<Seq<char>>)
    requires
        forall|k: int| 0 <= k < rest.len() ==> !names_json(#[trigger] rest[k]),
    ensures
        parse_spec(seq![prog, "--json"@] + rest) == with_json(parse_spec(seq![prog] + rest)),
{
    let t1 = after_program_name(seq![prog] + rest);
    let t2 = after_program_name(seq![prog, "--json"@] + rest);
    assert(t1 =~= rest);
    assert(t2 =~= seq!["--json"@] + rest);
    reveal_strlit("--json");
    reveal_strlit("--");
    reveal_strlit("--help");
    reveal_strlit("--version");
    reveal_strlit("json");
    let body = t2[0].skip(2);
    assert(body =~= "json"@);
    assert(!body.contains('='));
    body.index_of_first_ensures('=');
    assert(split_long(body).0 == "json"@);
    assert(starts_with(t2[0], "--"@)) by {
        assert(t2[0].take(2) =~= "--"@);
    }
    reveal_strlit("-h");
    reveal_strlit("-V");
    assert(t2[0] == "--json"@);
    assert("--json"@.len() == 6 && "--json"@[2] == 'j' && "--help"@[2] == 'h');
    assert(t2[0] != "--"@ && t2[0] != "--help"@ && t2[0] != "-h"@ && t2[0] != "--version"@
        && t2[0] != "-V"@);
    let a = scan_start();
    assert(lookup_opt(a.ctx, "json"@) == Some(Opt::Json));
    assert(!a.keys.contains(Opt::Json));
    let b = with_opt(a, Opt::Json, Seq::empty());
    assert(scan(t2, 0, a) == scan(t2, 1, b));
    assert(json_added(a, b, 0)) by {
        assert(b.keys =~= a.keys.insert(0, Opt::Json));
        assert(b.vals =~= a.vals.insert(0, Seq::<char>::empty()));
    }
    lemma_scan_json(t1, t2, 1, 0, a, b, 0);
    lemma_build_json(scan(t1, 0, a), scan(t2, 1, b));
}

/// `--json` is global: given right after the subcommand word `w` it sets the JSON
/// flag and changes nothing else in what the command line parses to (or in the
/// error it is refused with), when no other argument names `--json`.
pub proof fn law_json_after_subcommand(prog: Seq<char>, w: Seq<char>, rest: Seq<Seq<char>>)
    requires
        !starts_with(w, "-"@),
        forall|k: int| 0 <= k < rest.len() ==> !names_json(#[trigger] rest[k]),
    ensures
        parse_spec(seq![prog, w, "--json"@] + rest) == with_json(parse_spec(seq![prog, w] + rest)),
{
    let t1 = after_program_name(seq![prog, w] + rest);
    let t2 = after_program_name(seq![prog, w, "--json"@] + rest);
    assert(t1 =~= seq![w] + rest);
    assert(t2 =~= seq![w, "--json"@] + rest);
    reveal_strlit("--json");
    reveal_strlit("--");
    reveal_strlit("-");
    reveal_strlit("--help");
    reveal_strlit("--version");
    reveal_strlit("json");
    let a0 = scan_start();
    assert(t1[0] == w && t2[0] == w);
    if w.len() >= 1 {
        assert(w[0] != '-') by {
            if w[0] == '-' {
                assert(w.take(1) =~= "-"@);
            }
        }
    }
    reveal_strlit("-h");
    reveal_strlit("-V");
    assert(w != "--"@ && w != "--help"@ && w != "-h"@ && w != "--version"@ && w != "-V"@) by {
        assert("--"@[0] == '-' && "--help"@[0] == '-' && "-h"@[0] == '-');
        assert("--version"@[0] == '-' && "-V"@[0] == '-');
    }
    assert(!starts_with(w, "--"@)) by {
        if starts_with(w, "--"@) {
            assert(w.take(2)[0] == "--"@[0]);
        }
    }
    match select_sub(Ctx::Top, w) {
        Err(e) => {
            assert(scan(t1, 0, a0) == Err::<ScanState, CliError>(e));
            assert(scan(t2, 0, a0) == Err::<ScanState, CliError>(e));
        },
        Ok(c) => {
            let a = ScanState { ctx: c, ..a0 };
            assert(scan(t1, 0, a0) == scan(t1, 1, a));
            assert(scan(t2, 0, a0) == scan(t2, 1, a));
            let body = t2[1].skip(2);
            assert(body =~= "json"@);
            assert(!body.contains('='));
            body.index_of_first_ensures('=');
            assert(split_long(body).0 == "json"@);
            assert(starts_with(t2[1], "--"@)) by {
                assert(t2[1].take(2) =~= "--"@);
            }
            assert(t2[1] == "--json"@);
            assert("--json"@.len() == 6 && "--json"@[2] == 'j' && "--help"@[2] == 'h');
            assert(t2[1] != "--"@ && t2[1] != "--help"@ && t2[1] != "-h"@);
            assert(lookup_opt(a.ctx, "json"@) == Some(Opt::Json));
            assert(!a.keys.contains(Opt::Json));
            let b = with_opt(a, Opt::Json, Seq::empty());
            assert(scan(t2, 1, a) == scan(t2, 2, b));
            assert(json_added(a, b, 0)) by {
                assert(b.keys =~= a.keys.insert(0, Opt::Json));
                assert(b.vals =~= a.vals.insert(0, Seq::<char>::empty()));
            }
            lemma_scan_json(t1, t2, 1, 1, a, b, 0);
            lemma_build_json(scan(t1, 1, a), scan(t2, 2, b));
        },
    }
}

// ── Flags are set exactly when given ─────────────────────────────────────────

/// Whether the argument `t` is the long option `--<name>` (with or without `=value`).
pub open spec fn names_option(t: Seq<char>, name: Seq<char>) -> bool {
    starts_with(t, "--"@) && split_long(t.skip(2)).0 == name
}

/// `toks[k]` is the option `--<name>`, with no `--` from `toks[i]` up to it.
pub open spec fn given_at(toks: Seq<Seq<char>>, i: int, k: int, name: Seq<char>) -> bool {
    &&& i <= k < toks.len()
    &&& names_option(toks[k], name)
    &&& forall|j: int| i <= j < k ==> toks[j] != "--"@
}

/// The option `--<name>` is among the arguments `toks[i..]`, before any `--`.
pub open spec fn option_given(toks: Seq<Seq<char>>, i: int, name: Seq<char>) -> bool {
    exists|k: int| #[trigger] given_at(toks, i, k, name)
}

/// Skipping arguments that neither name the option nor are `--` keeps whether it is given.
proof fn lemma_given_skip(toks: Seq<Seq<char>>, i: int, i2: int, name: Seq<char>)
    requires
        i <= i2 <= toks.len(),
        forall|j: int| i <= j < i2 ==> !names_option(#[trigger] toks[j], name) && toks[j] != "--"@,
    ensures
        option_given(toks, i, name) == option_given(toks, i2, name),
{
    if option_given(toks, i, name) {
        let k = choose|k: int| #[trigger] given_at(toks, i, k, name);
        assert(k >= i2);
        assert(given_at(toks, i2, k, name));
    }
    if option_given(toks, i2, name) {
        let k = choose|k: int| #[trigger] given_at(toks, i2, k, name);
        assert(given_at(toks, i, k, name));
    }
}

/// Reading `toks[i..]` from `st` records the flag `o` (named `name`) exactly when
/// it was recorded before or, outside raw mode, `--<name>` comes before any `--`.
proof fn lemma_scan_flag(toks: Seq<Seq<char>>, i: int, st: ScanState, o: Opt, name: Seq<char>)
    requires
        0 <= i,
        !opt_takes_value(o),
        name.len() > 0,
        forall|c: Ctx, x: Seq<char>| lookup_opt(c, x) == Some(o) ==> x == name,
        forall|c: Ctx| #[trigger] lookup_opt(c, name) is None || lookup_opt(c, name) == Some(o),
    ensures
        scan(toks, i, st) matches Ok(st2) ==> (st2.keys.contains(o) <==> (st.keys.contains(o) || (
        !st.raw && option_given(toks, i, name)))),
    decreases toks.len() - i,
{
    reveal_strlit("--");
    if i >= toks.len() {
        if option_given(toks, i, name) {
            let k = choose|k: int| #[trigger] given_at(toks, i, k, name);
        }
    } else {
        let t = toks[i];
        if !st.raw && t == "--"@ {
            lemma_scan_flag(toks, i + 1, ScanState { raw: true, ..st }, o, name);
            if option_given(toks, i, name) {
                let k = choose|k: int| #[trigger] given_at(toks, i, k, name);
                if k == i {
                    let b = t.skip(2);
                    assert(b =~= Seq::<char>::empty());
                    b.index_of_first_ensures('=');
                    assert(split_long(b).0 =~= Seq::<char>::empty());
                }
            }
        } else if !st.raw && (t == "--help"@ || t == "-h"@) {
        } else if !st.raw && st.ctx == Ctx::Top && (t == "--version"@ || t == "-V"@) {
        } else if !st.raw && starts_with(t, "--"@) {
            let (nm, inline) = split_long(t.skip(2));
            match lookup_opt(st.ctx, nm) {
                None => {},
                Some(o2) => {
                    if st.keys.contains(o2) {
                    } else if o2 == o {
                        assert(nm == name);
                        assert(names_option(t, name));
                        assert(given_at(toks, i, i, name));
                        match inline {
                            Some(_) => {},
                            None => {
                                let st1 = with_opt(st, o, Seq::empty());
                                lemma_scan_flag(toks, i + 1, st1, o, name);
                                assert(st1.keys.contains(o)) by {
                                    assert(st1.keys[st.keys.len() as int] == o);
                                }
                            },
                        }
                    } else {
                        assert(!names_option(t, name)) by {
                            if names_option(t, name) {
                                assert(lookup_opt(st.ctx, name) is None || lookup_opt(st.ctx, name)
                                    == Some(o));
                            }
                        }
                        assert forall|v: Seq<char>| #[trigger] with_opt(st, o2, v).keys.contains(o)
                            == st.keys.contains(o) by {
                            let ks = with_opt(st, o2, v).keys;
                            if ks.contains(o) {
                                let j = choose|j: int| 0 <= j < ks.len() && ks[j] == o;
                                if j < st.keys.len() {
                                    assert(st.keys[j] == o);
                                }
                            }
                            if st.keys.contains(o) {
                                let j = choose|j: int| 0 <= j < st.keys.len() && st.keys[j] == o;
                                assert(ks[j] == o);
                            }
                        }
                        if opt_takes_value(o2) {
                            match inline {
                                Some(v) => {
                                    if value_ok(o2, v) {
                                        lemma_scan_flag(toks, i + 1, with_opt(st, o2, v), o, name);
                                        lemma_given_skip(toks, i, i + 1, name);
                                    }
                                },
                                None => {
                                    if i + 1 < toks.len() && is_value_token(toks[i + 1]) {
                                        let v = toks[i + 1];
                                        if value_ok(o2, v) {
                                            lemma_scan_flag(toks, i + 2, with_opt(st, o2, v), o, name);
                                            assert(!starts_with(v, "--"@) && v != "--"@) by {
                                                reveal_strlit("-");
                                                assert("--"@.len() == 2 && "--"@[0] == '-');
                                                assert("-"@.len() == 1 && "-"@[0] == '-');
                                                if starts_with(v, "--"@) {
                                                    assert(v.take(2)[0] == v[0]);
                                                    assert(v.take(1) =~= "-"@);
                                                }
                                                if v == "--"@ {
                                                    assert(v.take(1) =~= "-"@);
                                                }
                                            }
                                            lemma_given_skip(toks, i, i + 2, name);
                                        }
                                    }
                                },
                            }
                        } else {
                            match inline {
                                Some(_) => {},
                                None => {
                                    lemma_scan_flag(toks, i + 1, with_opt(st, o2, Seq::empty()), o, name);
                                    lemma_given_skip(toks, i, i + 1, name);
                                },
                            }
                        }
                    }
                },
            }
        } else if !st.raw && t.len() >= 2 && t[0] == '-' {
        } else if is_selector(st.ctx) {
            if !st.raw {
                match select_sub(st.ctx, t) {
                    Ok(c) => {
                        lemma_scan_flag(toks, i + 1, ScanState { ctx: c, ..st }, o, name);
                        lemma_given_skip(toks, i, i + 1, name);
                    },
                    Err(_) => {},
                }
            }
        } else if st.pos.len() >= max_positionals(st.ctx) {
        } else {
            lemma_scan_flag(toks, i + 1, ScanState { pos: st.pos.push(t), ..st }, o, name);
            if !st.raw {
                lemma_given_skip(toks, i, i + 1, name);
            }
        }
    }
}

/// The names under which the flags are looked up.
proof fn lemma_flag_names()
    ensures
        forall|c: Ctx, x: Seq<char>| lookup_opt(c, x) == Some(Opt::AllowOther) ==> x == "allow-other"@,
        forall|c: Ctx| #[trigger] lookup_opt(c, "allow-other"@) is None || lookup_opt(c, "allow-other"@)
            == Some(Opt::AllowOther),
        forall|c: Ctx, x: Seq<char>| lookup_opt(c, x) == Some(Opt::AutoSnapshot) ==> x == "auto-snapshot"@,
        forall|c: Ctx| #[trigger] lookup_opt(c, "auto-snapshot"@) is None || lookup_opt(c, "auto-snapshot"@)
            == Some(Opt::AutoSnapshot),
        forall|c: Ctx, x: Seq<char>| lookup_opt(c, x) == Some(Opt::Force) ==> x == "force"@,
        forall|c: Ctx| #[trigger] lookup_opt(c, "force"@) is None || lookup_opt(c, "force"@)
            == Some(Opt::Force),
        forall|c: Ctx, x: Seq<char>| lookup_opt(c, x) == Some(Opt::Json) ==> x == "json"@,
        forall|c: Ctx| #[trigger] lookup_opt(c, "json"@) is None || lookup_opt(c, "json"@)
            == Some(Opt::Json),
        "allow-other"@.len() > 0 && "auto-snapshot"@.len() > 0 && "force"@.len() > 0
            && "json"@.len() > 0,
{
    reveal_strlit("json");
    reveal_strlit("store");
    reveal_strlit("noatime");
    reveal_strlit("cache-size");
    reveal_strlit("allow-other");
    reveal_strlit("wal-strategy");
    reveal_strlit("snapshot");
    reveal_strlit("auto-snapshot");
    reveal_strlit("compressor");
    reveal_strlit("compressor-level");
    reveal_strlit("backend");
    reveal_strlit("force");
    reveal_strlit("name");
    reveal_strlit("offline");
    assert("force"@ != "store"@) by {
        assert("force"@[0] != "store"@[0]);
    }
    let f = "force"@;
    assert(f != "json"@ && f != "noatime"@ && f != "cache-size"@ && f != "allow-other"@ && f
        != "wal-strategy"@ && f != "snapshot"@ && f != "auto-snapshot"@ && f != "compressor"@
        && f != "compressor-level"@ && f != "backend"@) by {
        assert(f.len() == 5);
    }
    let a = "allow-other"@;
    assert(a != "json"@ && a != "store"@ && a != "noatime"@ && a != "cache-size"@) by {
        assert(a.len() == 11);
    }
    let b = "auto-snapshot"@;
    assert(b != "json"@ && b != "store"@ && b != "noatime"@ && b != "cache-size"@ && b
        != "allow-other"@ && b != "wal-strategy"@ && b != "snapshot"@) by {
        assert(b.len() == 13);
    }
}

/// A flag is set exactly when it is given: in every command line that parses,
/// `--json` is set exactly when the argument `--json` comes (after the program
/// name) before any `--`; and in a `mount` command line, so are
/// `--allow-other`, `--auto-snapshot` and `--force`.
pub proof fn law_flags_set_exactly_when_given(args: Seq<Seq<char>>)
    ensures
        parse_spec(args) matches Ok(v) ==> v.json == option_given(after_program_name(args), 0, "json"@),
        parse_spec(args) matches Ok(v) ==> (v.command matches CmdView::Mount {
            allow_other,
            auto_snapshot,
            force,
            ..
        } ==> {
            &&& allow_other == option_given(after_program_name(args), 0, "allow-other"@)
            &&& auto_snapshot == option_given(after_program_name(args), 0, "auto-snapshot"@)
            &&& force == option_given(after_program_name(args), 0, "force"@)
        }),
{
    let toks = after_program_name(args);
    let st0 = scan_start();
    lemma_flag_names();
    lemma_scan_flag(toks, 0, st0, Opt::Json, "json"@);
    lemma_scan_flag(toks, 0, st0, Opt::AllowOther, "allow-other"@);
    lemma_scan_flag(toks, 0, st0, Opt::AutoSnapshot, "auto-snapshot"@);
    lemma_scan_flag(toks, 0, st0, Opt::Force, "force"@);
    if let Ok(st) = scan(toks, 0, st0) {
        st.keys.index_of_first_ensures(Opt::Json);
        st.keys.index_of_first_ensures(Opt::AllowOther);
        st.keys.index_of_first_ensures(Opt::AutoSnapshot);
        st.keys.index_of_first_ensures(Opt::Force);
        assert(!st0.keys.contains(Opt::Json));
        assert(!st0.keys.contains(Opt::AllowOther));
        assert(!st0.keys.contains(Opt::AutoSnapshot));
        assert(!st0.keys.contains(Opt::Force));
    }
}

} // verus!

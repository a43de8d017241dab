//! `stats` subcommand: byte counts for humans, per-snapshot statistics and the
//! human-readable report.
//!
//! Reports logical bytes, bytes in the CAS batch files, host disk use, the
//! dedup ratio, the snapshot count, compressor information and the reference
//! count distribution.

use vstd::prelude::*;
use crate::snapshot::{SnapshotInfo, lines_view, name_or};
use crate::text::{
    chars_of, dec, dec_chars, extend_chars, extend_str, pad_left, pad_left_chars,
    string_from_chars,
};

verus! {

/// Reference count distribution across refcount entries.
pub struct RefcountDist {
    /// Blocks referenced exactly once.
    pub unique: usize,
    /// Blocks referenced exactly twice.
    pub shared_2x: usize,
    /// Blocks referenced three or more times.
    pub shared_3plus: usize,
}

/// Per-snapshot statistics.
pub struct SnapshotStats {
    pub version: u64,
    pub name: Option<String>,
    pub created_at: u64,
    /// Number of live roots (always 1 per snapshot).
    pub reachable_roots: usize,
}

/// The statistics of one snapshot: its version, name and creation time, with one root.
pub open spec fn stats_of(s: SnapshotInfo) -> (u64, Option<Seq<char>>, u64, usize) {
    (s.version, match s.name { Some(n) => Some(n@), None => None }, s.created_at, 1usize)
}

/// The fields of a [`SnapshotStats`], names by their characters.
pub open spec fn stats_fields(s: SnapshotStats) -> (u64, Option<Seq<char>>, u64, usize) {
    (s.version, match s.name { Some(n) => Some(n@), None => None }, s.created_at, s.reachable_roots)
}

/// Build per-snapshot statistics, one entry per snapshot in the same order.
pub fn build_snapshot_stats(snapshots: &[SnapshotInfo]) -> (r: Vec<SnapshotStats>)
    ensures
        r@.len() == snapshots@.len(),
        forall|i: int|
            0 <= i < r@.len() ==> #[trigger] stats_fields(r@[i]) == stats_of(snapshots@[i]),
{
    let mut out: Vec<SnapshotStats> = Vec::new();
    let mut i: usize = 0;
    while i < snapshots.len()
        invariant
            i <= snapshots@.len(),
            out@.len() == i,
            forall|j: int| 0 <= j < i ==> #[trigger] stats_fields(out@[j]) == stats_of(snapshots@[j]),
        decreases snapshots.len() - i,
    {
        let snap = &snapshots[i];
        let name = match &snap.name {
            Some(n) => Some(n.clone()),
            None => None,
        };
        out.push(SnapshotStats {
            version: snap.version,
            name,
            created_at: snap.created_at,
            reachable_roots: 1,
        });
        i += 1;
    }
    out
}

// ── Byte counts ───────────────────────────────────────────────────────────────

/// Spacing of the `f64` values near `n` (for `n < 2^64`): 1 below 2^53, then
/// doubling with each power of two.
pub open spec fn f64_spacing(n: nat) -> nat {
    if n < 0x20_0000_0000_0000 { 1 }
    else if n < 0x40_0000_0000_0000 { 2 }
    else if n < 0x80_0000_0000_0000 { 4 }
    else if n < 0x100_0000_0000_0000 { 8 }
    else if n < 0x200_0000_0000_0000 { 16 }
    else if n < 0x400_0000_0000_0000 { 32 }
    else if n < 0x800_0000_0000_0000 { 64 }
    else if n < 0x1000_0000_0000_0000 { 128 }
    else if n < 0x2000_0000_0000_0000 { 256 }
    else if n < 0x4000_0000_0000_0000 { 512 }
    else if n < 0x8000_0000_0000_0000 { 1024 }
    else { 2048 }
}

/// `n / d` rounded to the nearest integer, ties to even.
pub open spec fn round_half_even(n: nat, d: nat) -> nat {
    let q = n / d;
    let r = n % d;
    if 2 * r > d || (2 * r == d && q % 2 == 1) { q + 1 } else { q }
}

/// The value of `n as f64` for a 64-bit `n`: `n` rounded to the nearest `f64`, ties to even.
pub open spec fn f64_of(n: nat) -> nat {
    round_half_even(n, f64_spacing(n)) * f64_spacing(n)
}

/// `n as f64 / unit as f64` written with `{:.2}` (round half to even), as hundredths.
pub open spec fn hundredths(n: nat, unit: nat) -> nat {
    round_half_even(100 * f64_of(n), unit)
}

/// Hundredths `h` written as a decimal with two fraction digits.
pub open spec fn fixed2(h: nat) -> Seq<char> {
    dec(h / 100) + seq!['.'] + pad_left(dec(h % 100), 2, '0')
}

pub const KIB: u64 = 1024;
pub const MIB: u64 = 1048576;
pub const GIB: u64 = 1073741824;

/// A byte count with a binary unit when it is at least a kibibyte.
pub open spec fn bytes_text(bytes: nat) -> Seq<char> {
    if bytes == 0 {
        "0 B"@
    } else if bytes >= GIB {
        fixed2(hundredths(bytes, GIB as nat)) + " GiB ("@ + dec(bytes) + " bytes)"@
    } else if bytes >= MIB {
        fixed2(hundredths(bytes, MIB as nat)) + " MiB ("@ + dec(bytes) + " bytes)"@
    } else if bytes >= KIB {
        fixed2(hundredths(bytes, KIB as nat)) + " KiB ("@ + dec(bytes) + " bytes)"@
    } else {
        dec(bytes) + " B"@
    }
}

fn spacing(n: u64) -> (d: u64)
    ensures
        d == f64_spacing(n as nat),
{
    if n < 0x20_0000_0000_0000 { 1 }
    else if n < 0x40_0000_0000_0000 { 2 }
    else if n < 0x80_0000_0000_0000 { 4 }
    else if n < 0x100_0000_0000_0000 { 8 }
    else if n < 0x200_0000_0000_0000 { 16 }
    else if n < 0x400_0000_0000_0000 { 32 }
    else if n < 0x800_0000_0000_0000 { 64 }
    else if n < 0x1000_0000_0000_0000 { 128 }
    else if n < 0x2000_0000_0000_0000 { 256 }
    else if n < 0x4000_0000_0000_0000 { 512 }
    else if n < 0x8000_0000_0000_0000 { 1024 }
    else { 2048 }
}

fn round_even(n: u128, d: u128) -> (q: u128)
    requires
        d > 0,
        n / d < u128::MAX,
    ensures
        q == round_half_even(n as nat, d as nat),
{
    let q = n / d;
    let r = n % d;
    if r > d - r || (r == d - r && q % 2 == 1) { q + 1 } else { q }
}

/// `n as f64`, exactly, as an integer.
fn f64_value(n: u64) -> (v: u128)
    ensures
        v == f64_of(n as nat),
        v <= 0x1_0000_0000_0000_0000,
{
    let d = spacing(n);
    let q = round_even(n as u128, d as u128);
    assert(q <= 0x1_0000_0000_0000_0000int / (d as int)) by {
        assert((n as int) / (d as int) * (d as int) <= n) by (nonlinear_arith)
            requires d > 0, n >= 0;
    }
    assert(q * (d as int) <= 0x1_0000_0000_0000_0000int) by (nonlinear_arith)
        requires q <= 0x1_0000_0000_0000_0000int / (d as int), d > 0;
    q * (d as u128)
}

fn push_fixed2(v: &mut Vec<char>, h: u128)
    requires
        h / 100 <= u64::MAX,
    ensures
        final(v)@ == old(v)@ + fixed2(h as nat),
{
    let whole = dec_chars((h / 100) as u64);
    extend_chars(v, &whole);
    v.push('.');
    let frac = dec_chars((h % 100) as u64);
    let frac = pad_left_chars(&frac, 2, '0');
    extend_chars(v, &frac);
}

fn scaled_text(bytes: u64, unit: u64, name: &str) -> (r: String)
    requires
        unit == KIB || unit == MIB || unit == GIB,
    ensures
        r@ == fixed2(hundredths(bytes as nat, unit as nat)) + name@ + dec(bytes as nat)
            + " bytes)"@,
{
    let f = f64_value(bytes);
    let h = round_even(100 * f, unit as u128);
    let mut v: Vec<char> = Vec::new();
    push_fixed2(&mut v, h);
    extend_str(&mut v, name);
    let d = dec_chars(bytes);
    extend_chars(&mut v, &d);
    extend_str(&mut v, " bytes)");
    string_from_chars(&v)
}

/// Format a byte count as a human-readable string with appropriate units:
/// `0 B`, `512 B`, or e.g. `2.00 KiB (2048 bytes)` for a kibibyte or more.
pub fn format_bytes(bytes: u64) -> (r: String)
    ensures
        r@ == bytes_text(bytes as nat),
{
    if bytes == 0 {
        let v = chars_of("0 B");
        string_from_chars(&v)
    } else if bytes >= GIB {
        scaled_text(bytes, GIB, " GiB (")
    } else if bytes >= MIB {
        scaled_text(bytes, MIB, " MiB (")
    } else if bytes >= KIB {
        scaled_text(bytes, KIB, " KiB (")
    } else {
        let mut v = dec_chars(bytes);
        extend_str(&mut v, " B");
        string_from_chars(&v)
    }
}

// ── Report ────────────────────────────────────────────────────────────────────

/// The compressor information that stats report for the current store format.
pub fn compressor_info() -> (r: String)
    ensures
        r@ == "none (v3 raw)"@,
{
    let v = chars_of("none (v3 raw)");
    string_from_chars(&v)
}

/// The note printed to standard error when the store is mounted and the
/// output is for humans.
pub fn mounted_note(mounted: bool, json: bool) -> (r: Option<String>)
    ensures
        (mounted && !json) ==> (r matches Some(m)
            && m@ == "Note: store appears to be mounted; stats reflect closed segments only."@),
        !(mounted && !json) ==> r is None,
{
    if mounted && !json {
        let v = chars_of("Note: store appears to be mounted; stats reflect closed segments only.");
        Some(string_from_chars(&v))
    } else {
        None
    }
}

/// Store-wide statistics, but for the dedup ratio.
pub struct StoreSummary {
    pub logical_bytes: u64,
    /// Bytes used by the CAS batch files.
    pub physical_bytes: u64,
    /// Bytes used by the whole store directory on the host filesystem.
    pub host_disk_bytes: u64,
    pub snapshot_count: usize,
    pub compressor: String,
    pub snapshots: Vec<SnapshotStats>,
    /// Whether the store was mounted at scan time.
    pub mounted: bool,
}

/// The line for one snapshot in the human-readable report.
pub open spec fn snapshot_stats_line(s: SnapshotStats) -> Seq<char> {
    "  v"@ + dec(s.version as nat) + ": "@ + name_or(s.name, "<unnamed>"@) + " (created "@ + dec(
        s.created_at as nat,
    ) + ")"@
}

/// The human-readable stats report; `ratio` is the dedup ratio as already written.
pub open spec fn human_stats(s: StoreSummary, ratio: Seq<char>) -> Seq<Seq<char>> {
    let head = seq![
        "SliceFS Store Statistics"@,
        "========================"@,
        "Logical bytes    : "@ + bytes_text(s.logical_bytes as nat),
        "CAS bytes        : "@ + bytes_text(s.physical_bytes as nat) + " (vt0/ CAS batch files)"@,
        "Host disk used   : "@ + bytes_text(s.host_disk_bytes as nat),
        "Dedup ratio      : "@ + ratio + "x"@,
        "Snapshot count   : "@ + dec(s.snapshot_count as nat),
        "Compressor       : "@ + s.compressor@,
        "Mounted          : "@ + if s.mounted { "yes"@ } else { "no"@ },
    ];
    if s.snapshots@.len() == 0 {
        head
    } else {
        head + seq![Seq::empty(), "Snapshots"@, "---------"@] + s.snapshots@.map_values(
            |x: SnapshotStats| snapshot_stats_line(x),
        )
    }
}

fn stats_line(snap: &SnapshotStats) -> (r: String)
    ensures
        r@ == snapshot_stats_line(*snap),
{
    let mut v = chars_of("  v");
    let d = dec_chars(snap.version);
    extend_chars(&mut v, &d);
    extend_str(&mut v, ": ");
    match &snap.name {
        Some(n) => extend_str(&mut v, n.as_str()),
        None => extend_str(&mut v, "<unnamed>"),
    }
    extend_str(&mut v, " (created ");
    let c = dec_chars(snap.created_at);
    extend_chars(&mut v, &c);
    extend_str(&mut v, ")");
    string_from_chars(&v)
}

fn prefixed(prefix: &str, body: &str, suffix: &str) -> (r: String)
    ensures
        r@ == prefix@ + body@ + suffix@,
{
    let mut v = chars_of(prefix);
    extend_str(&mut v, body);
    extend_str(&mut v, suffix);
    string_from_chars(&v)
}

/// The human-readable stats report, line by line; `ratio` is the dedup ratio
/// as written with two decimals.
pub fn human_stats_lines(s: &StoreSummary, ratio: &str) -> (r: Vec<String>)
    ensures
        lines_view(r@) == human_stats(*s, ratio@),
{
    proof {
        reveal_strlit("");
        reveal_strlit("yes");
        reveal_strlit("no");
    }
    let mut out: Vec<String> = Vec::new();
    out.push(prefixed("SliceFS Store Statistics", "", ""));
    out.push(prefixed("========================", "", ""));
    let t = format_bytes(s.logical_bytes);
    out.push(prefixed("Logical bytes    : ", t.as_str(), ""));
    let t = format_bytes(s.physical_bytes);
    out.push(prefixed("CAS bytes        : ", t.as_str(), " (vt0/ CAS batch files)"));
    let t = format_bytes(s.host_disk_bytes);
    out.push(prefixed("Host disk used   : ", t.as_str(), ""));
    out.push(prefixed("Dedup ratio      : ", ratio, "x"));
    let mut v = chars_of("Snapshot count   : ");
    let d = dec_chars(s.snapshot_count as u64);
    extend_chars(&mut v, &d);
    out.push(string_from_chars(&v));
    out.push(prefixed("Compressor       : ", s.compressor.as_str(), ""));
    out.push(prefixed("Mounted          : ", if s.mounted { "yes" } else { "no" }, ""));
    let ghost head = lines_view(out@);
    assert(head =~= human_stats(*s, ratio@).take(9));
    if s.snapshots.len() > 0 {
        out.push(String::new());
        out.push(prefixed("Snapshots", "", ""));
        out.push(prefixed("---------", "", ""));
        let ghost top = lines_view(out@);
        let mut i: usize = 0;
        while i < s.snapshots.len()
            invariant
                i <= s.snapshots@.len(),
                lines_view(out@) == top + s.snapshots@.take(i as int).map_values(
                    |x: SnapshotStats| snapshot_stats_line(x),
                ),
            decreases s.snapshots.len() - i,
        {
            let line = stats_line(&s.snapshots[i]);
            let ghost before = out@;
            out.push(line);
            proof {
                assert(lines_view(out@) =~= lines_view(before).push(
                    snapshot_stats_line(s.snapshots@[i as int]),
                ));
                assert(s.snapshots@.take(i + 1).map_values(|x: SnapshotStats| snapshot_stats_line(x))
                    =~= s.snapshots@.take(i as int).map_values(
                    |x: SnapshotStats| snapshot_stats_line(x),
                ).push(snapshot_stats_line(s.snapshots@[i as int])));
            }
            i += 1;
        }
        assert(s.snapshots@.take(s.snapshots@.len() as int) =~= s.snapshots@);
    }
    assert(lines_view(out@) =~= human_stats(*s, ratio@));
    out
}

// ── Laws ──────────────────────────────────────────────────────────────────────

/// The stats report says the store is mounted exactly when it was: it holds the
/// line `Mounted          : yes` exactly when `s.mounted`, and the line
/// `Mounted          : no` exactly when not.
pub proof fn law_stats_mounted_line(s: StoreSummary, ratio: Seq<char>)
    ensures
        human_stats(s, ratio).contains("Mounted          : yes"@) <==> s.mounted,
        human_stats(s, ratio).contains("Mounted          : no"@) <==> !s.mounted,
{
    reveal_strlit("SliceFS Store Statistics");
    reveal_strlit("========================");
    reveal_strlit("Logical bytes    : ");
    reveal_strlit("CAS bytes        : ");
    reveal_strlit("Host disk used   : ");
    reveal_strlit("Dedup ratio      : ");
    reveal_strlit("Snapshot count   : ");
    reveal_strlit("Compressor       : ");
    reveal_strlit("Mounted          : ");
    reveal_strlit("Mounted          : yes");
    reveal_strlit("Mounted          : no");
    reveal_strlit("yes");
    reveal_strlit("no");
    reveal_strlit("Snapshots");
    reveal_strlit("---------");
    reveal_strlit("  v");
    let ls = human_stats(s, ratio);
    let m = "Mounted          : "@;
    let yes = "Mounted          : yes"@;
    let no = "Mounted          : no"@;
    assert(m + "yes"@ =~= yes);
    assert(m + "no"@ =~= no);
    assert(ls[8] == if s.mounted { yes } else { no });
    // Every other line is empty or starts with another character than `M`.
    assert forall|i: int| 0 <= i < ls.len() && i != 8 implies ls[i].len() == 0 || ls[i][0] != 'M' by {
        if i == 2 {
            assert(ls[i][0] == "Logical bytes    : "@[0]);
        } else if i == 3 {
            assert(ls[i][0] == "CAS bytes        : "@[0]);
        } else if i == 4 {
            assert(ls[i][0] == "Host disk used   : "@[0]);
        } else if i == 5 {
            assert(ls[i][0] == "Dedup ratio      : "@[0]);
        } else if i == 6 {
            assert(ls[i][0] == "Snapshot count   : "@[0]);
        } else if i == 7 {
            assert(ls[i][0] == "Compressor       : "@[0]);
        } else if i >= 12 {
            let x = s.snapshots@[i - 12];
            assert(ls[i] == snapshot_stats_line(x));
            assert(snapshot_stats_line(x)[0] == "  v"@[0]);
        }
    }
    if ls.contains(yes) {
        let i = choose|i: int| 0 <= i < ls.len() && ls[i] == yes;
        assert(yes[0] == 'M');
        if i != 8 {
            assert(ls[i].len() == 0 || ls[i][0] != 'M');
        }
        assert(s.mounted);
    }
    if ls.contains(no) {
        let i = choose|i: int| 0 <= i < ls.len() && ls[i] == no;
        assert(no[0] == 'M');
        if i != 8 {
            assert(ls[i].len() == 0 || ls[i][0] != 'M');
        }
        assert(!s.mounted);
    }
    if s.mounted {
        assert(ls[8] == yes);
    } else {
        assert(ls[8] == no);
    }
}

} // verus!

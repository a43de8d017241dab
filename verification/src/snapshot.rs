//! Snapshot subcommand: timestamps, root digests and the create / list / switch flow.
//!
//! All snapshot commands require the store to be unmounted (no `mount.lock`).

use vstd::prelude::*;
use crate::calendar::{
    date_of, days_before_month, days_before_year, days_from_civil, is_leap, lemma_date_of,
    lemma_era_start, lemma_month_step, lemma_next_year, lemma_year_tail, month_len, valid_date,
    year_len,
};
use crate::cli::{SnapshotAction, SnapshotActionView};
use crate::text::{
    chars_of, dec, dec_chars, digit_char, extend_chars, extend_str, pad_left, pad_left_chars,
    pad_right, pad_right_chars, string_from_chars,
};

verus! {

// ── Dates ─────────────────────────────────────────────────────────────────────

fn leap_year(y: u64) -> (b: bool)
    ensures
        b == is_leap(y as int),
{
    y % 4 == 0 && (y % 100 != 0 || y % 400 == 0)
}

fn year_length(y: u64) -> (n: u64)
    ensures
        n == year_len(y as int),
{
    if leap_year(y) { 366 } else { 365 }
}

fn month_length(y: u64, m: u64) -> (n: u64)
    ensures
        n == month_len(y as int, m as int),
{
    if m == 2 {
        if leap_year(y) { 29 } else { 28 }
    } else if m == 4 || m == 6 || m == 9 || m == 11 {
        30
    } else {
        31
    }
}

/// The calendar date `days` days after 1970-01-01, with the year in full.
fn civil_from_days(days: u64) -> (r: (u64, u64, u64))
    ensures
        valid_date(r.0 as int, r.1 as int, r.2 as int),
        days_from_civil(r.0 as int, r.1 as int, r.2 as int) == days,
{
    let era = days / 146097;
    let mut rem = days % 146097;
    let y0: u64 = 1970 + 400 * era;
    let mut y: u64 = y0;
    proof {
        lemma_era_start(era as int);
    }
    while rem >= year_length(y)
        invariant
            y0 == 1970 + 400 * era,
            era <= u64::MAX / 146097,
            y0 <= y,
            (y - y0) * 365 + rem <= 146096,
            days_before_year(y as int) + rem == days,
        decreases rem,
    {
        proof {
            lemma_next_year(y as int);
        }
        rem = rem - year_length(y);
        y = y + 1;
    }
    let ghost doy = rem as int;
    assert(0 <= doy < year_len(y as int));
    let mut m: u64 = 1;
    while m < 12 && rem >= month_length(y, m)
        invariant
            1 <= m <= 12,
            doy == days_before_month(y as int, m as int) + rem,
            doy < year_len(y as int),
            rem <= doy,
        decreases 12 - m,
    {
        proof {
            lemma_month_step(y as int, m as int);
        }
        rem = rem - month_length(y, m);
        m = m + 1;
    }
    proof {
        lemma_year_tail(y as int);
    }
    (y, m, rem + 1)
}

/// Convert a count of days since the Unix epoch (1970-01-01) to
/// `(year, month, day)`. The year is reported modulo 2^32.
pub fn days_to_ymd(days: u64) -> (r: (u32, u32, u32))
    ensures
        r.0 as int == date_of(days as nat).0 % 0x1_0000_0000,
        r.1 as int == date_of(days as nat).1,
        r.2 as int == date_of(days as nat).2,
{
    let (y, m, d) = civil_from_days(days);
    proof {
        lemma_date_of(days as nat, y as int, m as int, d as int);
    }
    ((y % 0x1_0000_0000) as u32, m as u32, d as u32)
}

/// `n` written with at least two digits.
pub open spec fn two_digits(n: nat) -> Seq<char> {
    pad_left(dec(n), 2, '0')
}

/// The ISO 8601 text for the Unix time `secs`, or `unknown` for zero.
pub open spec fn timestamp_text(secs: nat) -> Seq<char> {
    if secs == 0 {
        "unknown"@
    } else {
        let ymd = date_of(secs / 86400);
        pad_left(dec((ymd.0 % 0x1_0000_0000) as nat), 4, '0') + seq!['-'] + two_digits(ymd.1 as nat)
            + seq!['-'] + two_digits(ymd.2 as nat) + seq!['T'] + two_digits((secs / 3600) % 24)
            + seq![':'] + two_digits((secs / 60) % 60) + seq![':'] + two_digits(secs % 60)
            + seq!['Z']
    }
}

fn push_padded(v: &mut Vec<char>, n: u64, width: usize)
    ensures
        final(v)@ == old(v)@ + pad_left(dec(n as nat), width as nat, '0'),
{
    let digits = dec_chars(n);
    let padded = pad_left_chars(&digits, width, '0');
    extend_chars(v, &padded);
}

/// Format a Unix timestamp (seconds) as an ISO 8601 datetime string
/// (`YYYY-MM-DDTHH:MM:SSZ`, UTC). Returns `unknown` if the timestamp is zero.
pub fn format_unix_timestamp(secs: u64) -> (r: String)
    ensures
        r@ == timestamp_text(secs as nat),
{
    if secs == 0 {
        let v = chars_of("unknown");
        return string_from_chars(&v);
    }
    let sec = secs % 60;
    let min = (secs / 60) % 60;
    let hour = (secs / 3600) % 24;
    let (year, month, day) = days_to_ymd(secs / 86400);
    let mut v: Vec<char> = Vec::new();
    push_padded(&mut v, year as u64, 4);
    v.push('-');
    push_padded(&mut v, month as u64, 2);
    v.push('-');
    push_padded(&mut v, day as u64, 2);
    v.push('T');
    push_padded(&mut v, hour, 2);
    v.push(':');
    push_padded(&mut v, min, 2);
    v.push(':');
    push_padded(&mut v, sec, 2);
    v.push('Z');
    let r = string_from_chars(&v);
    proof {
        let ymd = date_of((secs / 86400) as nat);
        assert(year as nat == (ymd.0 % 0x1_0000_0000) as nat);
        assert(v@ =~= timestamp_text(secs as nat));
    }
    r
}

// ── Root digests ──────────────────────────────────────────────────────────────

/// The lowercase hexadecimal digit for `n < 16`.
pub open spec fn hex_digit(n: nat) -> char {
    if n < 10 { digit_char(n) } else if n == 10 { 'a' } else if n == 11 { 'b' } else if n == 12 { 'c' }
    else if n == 13 { 'd' } else if n == 14 { 'e' } else { 'f' }
}

/// A byte as two lowercase hex digits (`{:02x}`).
pub open spec fn byte_hex(b: nat) -> Seq<char> {
    seq![hex_digit(b / 16), hex_digit(b % 16)]
}

/// A 32-bit word as its four little-endian bytes in hex.
pub open spec fn word_hex(w: nat) -> Seq<char> {
    byte_hex(w % 256) + byte_hex((w / 256) % 256) + byte_hex((w / 65536) % 256)
        + byte_hex((w / 16777216) % 256)
}

/// Words as hex, each word's bytes in little-endian order.
pub open spec fn words_hex(ws: Seq<u32>) -> Seq<char>
    decreases ws.len(),
{
    if ws.len() == 0 {
        Seq::empty()
    } else {
        words_hex(ws.drop_last()) + word_hex(ws.last() as nat)
    }
}

fn hex_char(n: u32) -> (c: char)
    requires
        n < 16,
    ensures
        c == hex_digit(n as nat),
{
    if n == 0 { '0' } else if n == 1 { '1' } else if n == 2 { '2' } else if n == 3 { '3' }
    else if n == 4 { '4' } else if n == 5 { '5' } else if n == 6 { '6' } else if n == 7 { '7' }
    else if n == 8 { '8' } else if n == 9 { '9' } else if n == 10 { 'a' } else if n == 11 { 'b' }
    else if n == 12 { 'c' } else if n == 13 { 'd' } else if n == 14 { 'e' } else { 'f' }
}

fn push_byte_hex(v: &mut Vec<char>, b: u32)
    requires
        b < 256,
    ensures
        final(v)@ == old(v)@ + byte_hex(b as nat),
{
    v.push(hex_char(b / 16));
    v.push(hex_char(b % 16));
}

/// The digest `root` as hex: the little-endian bytes of each word, two
/// lowercase hex digits per byte.
pub fn root_hex(root: &[u32]) -> (r: String)
    ensures
        r@ == words_hex(root@),
{
    let mut v: Vec<char> = Vec::new();
    let mut i: usize = 0;
    while i < root.len()
        invariant
            i <= root.len(),
            v@ == words_hex(root@.take(i as int)),
        decreases root.len() - i,
    {
        let w = root[i];
        push_byte_hex(&mut v, w % 256);
        push_byte_hex(&mut v, (w / 256) % 256);
        push_byte_hex(&mut v, (w / 65536) % 256);
        push_byte_hex(&mut v, (w / 16777216) % 256);
        proof {
            let t = root@.take(i + 1);
            assert(t.drop_last() =~= root@.take(i as int));
            assert(t.last() == w);
        }
        i += 1;
    }
    assert(root@.take(root.len() as int) =~= root@);
    string_from_chars(&v)
}

// ── Snapshot listing ──────────────────────────────────────────────────────────

/// One snapshot as the store's segment replay reports it.
pub struct SnapshotInfo {
    pub version: u64,
    pub name: Option<String>,
    /// Unix time (seconds) at which the snapshot was taken; zero when unknown.
    pub created_at: u64,
    /// The snapshot's root digest.
    pub root: [u32; 7],
}

/// The characters of an optional name, or `dflt` when there is none.
pub open spec fn name_or(name: Option<String>, dflt: Seq<char>) -> Seq<char> {
    match name {
        Some(s) => s@,
        None => dflt,
    }
}

/// At most the first 16 characters of `h`.
pub open spec fn prefix16(h: Seq<char>) -> Seq<char> {
    if h.len() <= 16 { h } else { h.take(16) }
}

/// The header line of the snapshot table.
pub open spec fn list_header() -> Seq<char> {
    pad_right("Version"@, 8) + seq![' '] + pad_right("Name"@, 20) + seq![' '] + pad_right(
        "Created"@,
        22,
    ) + " Root"@
}

/// The table row for one snapshot.
pub open spec fn list_row(s: SnapshotInfo) -> Seq<char> {
    pad_right(dec(s.version as nat), 8) + seq![' '] + pad_right(name_or(s.name, "-"@), 20)
        + seq![' '] + pad_right(timestamp_text(s.created_at as nat), 22) + seq![' '] + prefix16(
        words_hex(s.root@),
    ) + "..."@
}

/// The lines that `snapshot list` prints for the snapshots `snaps`.
pub open spec fn list_lines(snaps: Seq<SnapshotInfo>) -> Seq<Seq<char>> {
    if snaps.len() == 0 {
        seq!["No snapshots found."@]
    } else {
        seq![list_header(), Seq::new(80, |_i: int| '-')] + snaps.map_values(
            |s: SnapshotInfo| list_row(s),
        ) + seq![Seq::empty(), dec(snaps.len()) + " snapshot(s) total."@]
    }
}

/// The characters of the strings in `v`.
pub open spec fn lines_view(v: Seq<String>) -> Seq<Seq<char>> {
    v.map_values(|s: String| s@)
}

fn padded_right_str(v: &mut Vec<char>, s: &str, width: usize)
    ensures
        final(v)@ == old(v)@ + pad_right(s@, width as nat),
{
    let w = chars_of(s);
    let p = pad_right_chars(&w, width);
    extend_chars(v, &p);
}

fn list_row_line(snap: &SnapshotInfo) -> (r: String)
    ensures
        r@ == list_row(*snap),
{
    let mut v: Vec<char> = Vec::new();
    let version = dec_chars(snap.version);
    let version = pad_right_chars(&version, 8);
    extend_chars(&mut v, &version);
    v.push(' ');
    match &snap.name {
        Some(n) => padded_right_str(&mut v, n.as_str(), 20),
        None => padded_right_str(&mut v, "-", 20),
    }
    v.push(' ');
    let created = format_unix_timestamp(snap.created_at);
    padded_right_str(&mut v, created.as_str(), 22);
    v.push(' ');
    let hex = root_hex(&snap.root);
    let h = chars_of(hex.as_str());
    let mut i: usize = 0;
    let k: usize = if h.len() < 16 { h.len() } else { 16 };
    let ghost base = v@;
    while i < k
        invariant
            i <= k <= h.len(),
            v@ == base + h@.take(i as int),
        decreases k - i,
    {
        v.push(h[i]);
        assert(h@.take(i as int).push(h@[i as int]) =~= h@.take(i + 1));
        i += 1;
    }
    proof {
        if h@.len() <= 16 {
            assert(h@.take(k as int) =~= h@);
        }
        assert(h@.take(k as int) == prefix16(words_hex(snap.root@)));
    }
    extend_str(&mut v, "...");
    let r = string_from_chars(&v);
    proof {
        assert(v@ =~= list_row(*snap));
    }
    r
}

/// The lines that `snapshot list` prints: a table of the snapshots with their
/// version, name, creation time and the first 16 hex digits of the root.
pub fn snapshot_list_lines(snaps: &Vec<SnapshotInfo>) -> (r: Vec<String>)
    ensures
        lines_view(r@) == list_lines(snaps@),
{
    let mut out: Vec<String> = Vec::new();
    if snaps.len() == 0 {
        let v = chars_of("No snapshots found.");
        out.push(string_from_chars(&v));
        assert(lines_view(out@) =~= list_lines(snaps@));
        return out;
    }
    let mut h: Vec<char> = Vec::new();
    padded_right_str(&mut h, "Version", 8);
    h.push(' ');
    padded_right_str(&mut h, "Name", 20);
    h.push(' ');
    padded_right_str(&mut h, "Created", 22);
    extend_str(&mut h, " Root");
    assert(h@ =~= list_header());
    out.push(string_from_chars(&h));
    let mut dashes: Vec<char> = Vec::new();
    let mut j: usize = 0;
    while j < 80
        invariant
            j <= 80,
            dashes@ == Seq::new(j as nat, |_i: int| '-'),
        decreases 80 - j,
    {
        dashes.push('-');
        j += 1;
        assert(dashes@ =~= Seq::new(j as nat, |_i: int| '-'));
    }
    out.push(string_from_chars(&dashes));
    let ghost top = seq![list_header(), Seq::new(80, |_i: int| '-')];
    assert(lines_view(out@) =~= top);
    let mut i: usize = 0;
    while i < snaps.len()
        invariant
            i <= snaps.len(),
            lines_view(out@) == top + snaps@.take(i as int).map_values(
                |s: SnapshotInfo| list_row(s),
            ),
        decreases snaps.len() - i,
    {
        let line = list_row_line(&snaps[i]);
        let ghost before = out@;
        out.push(line);
        proof {
            assert(lines_view(out@) =~= lines_view(before).push(list_row(snaps@[i as int])));
            assert(snaps@.take(i + 1).map_values(|s: SnapshotInfo| list_row(s)) =~= snaps@.take(
                i as int,
            ).map_values(|s: SnapshotInfo| list_row(s)).push(list_row(snaps@[i as int])));
            assert(lines_view(out@) =~= top + snaps@.take(i + 1).map_values(
                |s: SnapshotInfo| list_row(s),
            ));
        }
        i += 1;
    }
    assert(snaps@.take(snaps.len() as int) =~= snaps@);
    out.push(String::new());
    let mut t = dec_chars(snaps.len() as u64);
    extend_str(&mut t, " snapshot(s) total.");
    out.push(string_from_chars(&t));
    assert(lines_view(out@) =~= list_lines(snaps@));
    out
}

// ── The snapshot command flow ────────────────────────────────────────────────

/// Work that the snapshot flow hands to its caller.
pub enum SnapshotWork {
    /// Report whether `<store>/mount.lock` exists.
    CheckMountLock,
    /// Replay the store's segments: committed root and snapshot list.
    LoadSegments,
    /// Rebuild the store, create a snapshot with this name and flush it.
    CreateSnapshot { name: Option<String> },
    /// Rebuild the store, find `target`, save the current state as an
    /// `auto-before-switch` snapshot and make the target's root current.
    SwitchTo { target: String },
}

/// What the caller observed while doing the last piece of work.
pub enum SnapshotEvent {
    /// The command starts.
    Start,
    /// Whether `mount.lock` is present, and its path as displayed.
    MountLock { present: bool, lock_path: String },
    /// Segment replay failed with this message.
    SegmentsFailed { message: String },
    /// Segment replay succeeded.
    Segments { has_root: bool, snapshots: Vec<SnapshotInfo>, segments_dir: String },
    /// The snapshot `version` with root `root` was created.
    Created { version: u64, root: [u32; 7] },
    /// No snapshot matches the switch target.
    TargetMissing,
    /// The switch happened; the current state was saved as `auto_version`.
    Switched { target_version: u64, auto_version: u64 },
    /// A step failed with this message.
    Failed { message: String },
}

/// The next thing to do: more work, or the end with the lines to print or the error.
pub enum SnapshotNext {
    Work(SnapshotWork),
    Finish(Result<Vec<String>, String>),
}

/// [`SnapshotWork`] with its strings taken by their characters.
pub enum SnapshotWorkView {
    CheckMountLock,
    LoadSegments,
    CreateSnapshot { name: Option<Seq<char>> },
    SwitchTo { target: Seq<char> },
}

/// [`SnapshotNext`] with its strings taken by their characters.
pub enum SnapshotNextView {
    Work(SnapshotWorkView),
    Finish(Result<Seq<Seq<char>>, Seq<char>>),
}

impl View for SnapshotWork {
    type V = SnapshotWorkView;

    open spec fn view(&self) -> SnapshotWorkView {
        match self {
            SnapshotWork::CheckMountLock => SnapshotWorkView::CheckMountLock,
            SnapshotWork::LoadSegments => SnapshotWorkView::LoadSegments,
            SnapshotWork::CreateSnapshot { name } => SnapshotWorkView::CreateSnapshot {
                name: match name {
                    Some(n) => Some(n@),
                    None => None,
                },
            },
            SnapshotWork::SwitchTo { target } => SnapshotWorkView::SwitchTo { target: target@ },
        }
    }
}

impl View for SnapshotNext {
    type V = SnapshotNextView;

    open spec fn view(&self) -> SnapshotNextView {
        match self {
            SnapshotNext::Work(w) => SnapshotNextView::Work(w@),
            SnapshotNext::Finish(Ok(lines)) => SnapshotNextView::Finish(Ok(lines_view(lines@))),
            SnapshotNext::Finish(Err(e)) => SnapshotNextView::Finish(Err(e@)),
        }
    }
}

/// The refusal for a snapshot command while the store is mounted.
pub open spec fn mounted_message(lock_path: Seq<char>, doing: Seq<char>) -> Seq<char> {
    "Store is mounted (mount.lock found at "@ + lock_path + "). Unmount first before "@ + doing
        + " snapshots."@
}

/// The message for a store whose segments hold no committed root.
pub open spec fn no_root_message(segments_dir: Seq<char>) -> Seq<char> {
    "no committed state found in segments at "@ + segments_dir
}

/// The message for a failed segment replay.
pub open spec fn load_failed_message(e: Seq<char>) -> Seq<char> {
    "failed to load segments: "@ + e
}

/// The report line of a created snapshot.
pub open spec fn created_line(version: u64, root: Seq<u32>) -> Seq<char> {
    "Snapshot "@ + dec(version as nat) + " created (root: "@ + words_hex(root) + ")"@
}

/// The report line of a switch.
pub open spec fn switched_line(target_version: u64, auto_version: u64) -> Seq<char> {
    "Switched to snapshot "@ + dec(target_version as nat) + " (auto-snapshot "@ + dec(
        auto_version as nat,
    ) + " saved)"@
}

/// The error for an event that the command's flow does not produce at this point.
pub open spec fn unexpected_message() -> Seq<char> {
    "unexpected step in snapshot command"@
}

/// What a snapshot command does, as its mounted-store refusal names it.
pub open spec fn snapshot_doing(action: SnapshotActionView) -> Seq<char> {
    match action {
        SnapshotActionView::Create { .. } => "creating"@,
        SnapshotActionView::List { .. } => "listing"@,
        SnapshotActionView::Switch { .. } => "switching"@,
    }
}

/// The next step of a snapshot command `action` after `event`.
///
/// Every snapshot command checks `mount.lock` first and refuses a mounted
/// store; then it replays the segments. Create and switch need a committed root.
pub open spec fn snapshot_next(action: SnapshotActionView, event: SnapshotEvent) -> SnapshotNextView {
    let doing = snapshot_doing(action);
    match event {
        SnapshotEvent::Start => SnapshotNextView::Work(SnapshotWorkView::CheckMountLock),
        SnapshotEvent::MountLock { present, lock_path } => if present {
            SnapshotNextView::Finish(Err(mounted_message(lock_path@, doing)))
        } else {
            SnapshotNextView::Work(SnapshotWorkView::LoadSegments)
        },
        SnapshotEvent::SegmentsFailed { message } => SnapshotNextView::Finish(
            Err(load_failed_message(message@)),
        ),
        SnapshotEvent::Segments { has_root, snapshots, segments_dir } => match action {
            SnapshotActionView::List { .. } => SnapshotNextView::Finish(Ok(list_lines(snapshots@))),
            SnapshotActionView::Create { name, .. } => if has_root {
                SnapshotNextView::Work(SnapshotWorkView::CreateSnapshot { name })
            } else {
                SnapshotNextView::Finish(Err(no_root_message(segments_dir@)))
            },
            SnapshotActionView::Switch { version_or_name, .. } => if has_root {
                SnapshotNextView::Work(SnapshotWorkView::SwitchTo { target: version_or_name })
            } else {
                SnapshotNextView::Finish(Err(no_root_message(segments_dir@)))
            },
        },
        SnapshotEvent::Created { version, root } => if action is Create {
            SnapshotNextView::Finish(Ok(seq![created_line(version, root@)]))
        } else {
            SnapshotNextView::Finish(Err(unexpected_message()))
        },
        SnapshotEvent::TargetMissing => match action {
            SnapshotActionView::Switch { version_or_name, .. } => SnapshotNextView::Finish(
                Err("snapshot not found: "@ + version_or_name),
            ),
            _ => SnapshotNextView::Finish(Err(unexpected_message())),
        },
        SnapshotEvent::Switched { target_version, auto_version } => if action is Switch {
            SnapshotNextView::Finish(Ok(seq![switched_line(target_version, auto_version)]))
        } else {
            SnapshotNextView::Finish(Err(unexpected_message()))
        },
        SnapshotEvent::Failed { message } => SnapshotNextView::Finish(Err(message@)),
    }
}

fn str_of(s: &str) -> (r: String)
    ensures
        r@ == s@,
{
    let v = chars_of(s);
    string_from_chars(&v)
}

fn concat3(a: &str, b: &str, c: &str) -> (r: String)
    ensures
        r@ == a@ + b@ + c@,
{
    let mut v = chars_of(a);
    extend_str(&mut v, b);
    extend_str(&mut v, c);
    string_from_chars(&v)
}

/// Drive a `snapshot` subcommand: given what the caller observed, say what to
/// do next, or finish with the lines to print or the error.
///
/// The caller starts with [`SnapshotEvent::Start`] and feeds back, after each
/// piece of [`SnapshotWork`], the event that describes its outcome.
pub fn run_snapshot(action: &SnapshotAction, event: SnapshotEvent) -> (r: SnapshotNext)
    ensures
        r@ == snapshot_next(action@, event),
{
    let doing = match action {
        SnapshotAction::Create { .. } => "creating",
        SnapshotAction::List { .. } => "listing",
        SnapshotAction::Switch { .. } => "switching",
    };
    proof {
        reveal_strlit("creating");
        reveal_strlit("listing");
        reveal_strlit("switching");
    }
    match event {
        SnapshotEvent::Start => SnapshotNext::Work(SnapshotWork::CheckMountLock),
        SnapshotEvent::MountLock { present, lock_path } => if present {
            let mut v = chars_of("Store is mounted (mount.lock found at ");
            extend_str(&mut v, lock_path.as_str());
            extend_str(&mut v, "). Unmount first before ");
            extend_str(&mut v, doing);
            extend_str(&mut v, " snapshots.");
            let m = string_from_chars(&v);
            proof {
                assert(doing@ == snapshot_doing(action@));
                assert(m@ =~= mounted_message(lock_path@, doing@));
            }
            SnapshotNext::Finish(Err(m))
        } else {
            SnapshotNext::Work(SnapshotWork::LoadSegments)
        },
        SnapshotEvent::SegmentsFailed { message } => {
            let m = concat3("failed to load segments: ", message.as_str(), "");
            proof {
                reveal_strlit("");
                assert(m@ =~= load_failed_message(message@));
            }
            SnapshotNext::Finish(Err(m))
        },
        SnapshotEvent::Segments { has_root, snapshots, segments_dir } => match action {
            SnapshotAction::List { .. } => {
                let lines = snapshot_list_lines(&snapshots);
                SnapshotNext::Finish(Ok(lines))
            },
            SnapshotAction::Create { name, .. } => if has_root {
                let n = match name {
                    Some(s) => Some(s.clone()),
                    None => None,
                };
                SnapshotNext::Work(SnapshotWork::CreateSnapshot { name: n })
            } else {
                let m = concat3("no committed state found in segments at ", segments_dir.as_str(), "");
                proof {
                    reveal_strlit("");
                    assert(m@ =~= no_root_message(segments_dir@));
                }
                SnapshotNext::Finish(Err(m))
            },
            SnapshotAction::Switch { version_or_name, .. } => if has_root {
                SnapshotNext::Work(SnapshotWork::SwitchTo { target: version_or_name.clone() })
            } else {
                let m = concat3("no committed state found in segments at ", segments_dir.as_str(), "");
                proof {
                    reveal_strlit("");
                    assert(m@ =~= no_root_message(segments_dir@));
                }
                SnapshotNext::Finish(Err(m))
            },
        },
        SnapshotEvent::Created { version, root } => match action {
            SnapshotAction::Create { .. } => {
                let mut v = chars_of("Snapshot ");
                let d = dec_chars(version);
                extend_chars(&mut v, &d);
                extend_str(&mut v, " created (root: ");
                let h = root_hex(&root);
                extend_str(&mut v, h.as_str());
                extend_str(&mut v, ")");
                let line = string_from_chars(&v);
                let mut lines: Vec<String> = Vec::new();
                lines.push(line);
                proof {
                    assert(line@ =~= created_line(version, root@));
                    assert(lines_view(lines@) =~= seq![created_line(version, root@)]);
                }
                SnapshotNext::Finish(Ok(lines))
            },
            _ => SnapshotNext::Finish(Err(str_of("unexpected step in snapshot command"))),
        },
        SnapshotEvent::TargetMissing => match action {
            SnapshotAction::Switch { version_or_name, .. } => {
                let m = concat3("snapshot not found: ", version_or_name.as_str(), "");
                proof {
                    reveal_strlit("");
                    assert(m@ =~= "snapshot not found: "@ + version_or_name@);
                }
                SnapshotNext::Finish(Err(m))
            },
            _ => SnapshotNext::Finish(Err(str_of("unexpected step in snapshot command"))),
        },
        SnapshotEvent::Switched { target_version, auto_version } => match action {
            SnapshotAction::Switch { .. } => {
                let mut v = chars_of("Switched to snapshot ");
                let t = dec_chars(target_version);
                extend_chars(&mut v, &t);
                extend_str(&mut v, " (auto-snapshot ");
                let a = dec_chars(auto_version);
                extend_chars(&mut v, &a);
                extend_str(&mut v, " saved)");
                let line = string_from_chars(&v);
                let mut lines: Vec<String> = Vec::new();
                lines.push(line);
                proof {
                    assert(line@ =~= switched_line(target_version, auto_version));
                    assert(lines_view(lines@) =~= seq![switched_line(target_version, auto_version)]);
                }
                SnapshotNext::Finish(Ok(lines))
            },
            _ => SnapshotNext::Finish(Err(str_of("unexpected step in snapshot command"))),
        },
        SnapshotEvent::Failed { message } => SnapshotNext::Finish(Err(message)),
    }
}

// ── Laws ──────────────────────────────────────────────────────────────────────

/// Every snapshot command looks for `mount.lock` before anything else and stops
/// with the mounted-store refusal when it is present.
pub proof fn law_mounted_store_left_alone(action: SnapshotActionView, lock_path: String)
    ensures
        snapshot_next(action, SnapshotEvent::Start) == SnapshotNextView::Work(
            SnapshotWorkView::CheckMountLock,
        ),
        snapshot_next(action, SnapshotEvent::MountLock { present: true, lock_path })
            == SnapshotNextView::Finish(Err(mounted_message(lock_path@, snapshot_doing(action)))),
{
}

/// Work on the store (creating or switching a snapshot) is only ever asked for
/// after segment replay found a committed root.
pub proof fn law_store_work_needs_committed_root(action: SnapshotActionView, event: SnapshotEvent)
    ensures
        (snapshot_next(action, event) matches SnapshotNextView::Work(w) && (w is CreateSnapshot
            || w is SwitchTo)) ==> (event matches SnapshotEvent::Segments { has_root, .. }
            && has_root),
{
}

// ── A whole run ───────────────────────────────────────────────────────────────

/// What the store answers to each piece of snapshot work.
pub struct SnapshotWorld {
    /// Whether `mount.lock` is present, and its path as displayed.
    pub lock_present: bool,
    pub lock_path: String,
    /// Segment replay: whether a committed root was found, the snapshots and the
    /// segments directory as displayed; or the replay's error.
    pub segments: Result<(bool, Vec<SnapshotInfo>, String), String>,
    /// Creating the snapshot: its version and root, or the error.
    pub created: Result<(u64, [u32; 7]), String>,
    /// Switching: the target's version and the version of the snapshot saved
    /// before the switch; `None` when no snapshot matches the target; or the error.
    pub switched: Result<Option<(u64, u64)>, String>,
}

/// The event that reports how the store carried out `work`.
pub open spec fn world_answer(world: SnapshotWorld, work: SnapshotWorkView) -> SnapshotEvent {
    match work {
        SnapshotWorkView::CheckMountLock => SnapshotEvent::MountLock {
            present: world.lock_present,
            lock_path: world.lock_path,
        },
        SnapshotWorkView::LoadSegments => match world.segments {
            Ok((has_root, snapshots, segments_dir)) => SnapshotEvent::Segments {
                has_root,
                snapshots,
                segments_dir,
            },
            Err(message) => SnapshotEvent::SegmentsFailed { message },
        },
        SnapshotWorkView::CreateSnapshot { .. } => match world.created {
            Ok((version, root)) => SnapshotEvent::Created { version, root },
            Err(message) => SnapshotEvent::Failed { message },
        },
        SnapshotWorkView::SwitchTo { .. } => match world.switched {
            Ok(Some((target_version, auto_version))) => SnapshotEvent::Switched {
                target_version,
                auto_version,
            },
            Ok(None) => SnapshotEvent::TargetMissing,
            Err(message) => SnapshotEvent::Failed { message },
        },
    }
}

/// Running the snapshot flow from `event`, answering each piece of work from
/// `world`, for at most `fuel` more pieces: the work asked for, in order, and
/// the outcome (`None` if the fuel ran out first).
pub open spec fn run_from(
    action: SnapshotActionView,
    world: SnapshotWorld,
    event: SnapshotEvent,
    fuel: nat,
) -> (Seq<SnapshotWorkView>, Option<Result<Seq<Seq<char>>, Seq<char>>>)
    decreases fuel,
{
    match snapshot_next(action, event) {
        SnapshotNextView::Finish(r) => (Seq::empty(), Some(r)),
        SnapshotNextView::Work(w) => if fuel == 0 {
            (seq![w], None)
        } else {
            let rest = run_from(action, world, world_answer(world, w), (fuel - 1) as nat);
            (seq![w] + rest.0, rest.1)
        },
    }
}

/// The pieces of work of a whole `snapshot` command: every command checks
/// `mount.lock`, then (unmounted) replays the segments; create and switch then
/// (with a committed root) create or switch.
pub open spec fn command_steps(action: SnapshotActionView, world: SnapshotWorld) -> Seq<
    SnapshotWorkView,
> {
    match action {
        SnapshotActionView::List { .. } => if world.lock_present {
            seq![SnapshotWorkView::CheckMountLock]
        } else {
            seq![SnapshotWorkView::CheckMountLock, SnapshotWorkView::LoadSegments]
        },
        _ => if world.lock_present {
            seq![SnapshotWorkView::CheckMountLock]
        } else {
            match world.segments {
                Ok((true, _, _)) => seq![
                    SnapshotWorkView::CheckMountLock,
                    SnapshotWorkView::LoadSegments,
                    match action {
                        SnapshotActionView::Create { name, .. } => SnapshotWorkView::CreateSnapshot {
                            name,
                        },
                        SnapshotActionView::Switch { version_or_name, .. } => SnapshotWorkView::SwitchTo {
                            target: version_or_name,
                        },
                        _ => SnapshotWorkView::LoadSegments,
                    },
                ],
                _ => seq![SnapshotWorkView::CheckMountLock, SnapshotWorkView::LoadSegments],
            }
        },
    }
}

/// The outcome of a whole `snapshot create`, `list` or `switch`: the lines
/// printed, or the error.
pub open spec fn command_outcome(action: SnapshotActionView, world: SnapshotWorld) -> Result<
    Seq<Seq<char>>,
    Seq<char>,
> {
    if world.lock_present {
        Err(mounted_message(world.lock_path@, snapshot_doing(action)))
    } else {
        match world.segments {
            Err(e) => Err(load_failed_message(e@)),
            Ok((has_root, snapshots, segments_dir)) => match action {
                SnapshotActionView::List { .. } => Ok(list_lines(snapshots@)),
                SnapshotActionView::Create { .. } => if !has_root {
                    Err(no_root_message(segments_dir@))
                } else {
                    match world.created {
                        Ok((version, root)) => Ok(seq![created_line(version, root@)]),
                        Err(e) => Err(e@),
                    }
                },
                SnapshotActionView::Switch { version_or_name, .. } => if !has_root {
                    Err(no_root_message(segments_dir@))
                } else {
                    match world.switched {
                        Ok(Some((t, a))) => Ok(seq![switched_line(t, a)]),
                        Ok(None) => Err("snapshot not found: "@ + version_or_name),
                        Err(e) => Err(e@),
                    }
                },
            },
        }
    }
}

/// A whole run of the snapshot flow, started with [`SnapshotEvent::Start`] and
/// answered by the store, ends within three pieces of work, asks for exactly the
/// work of the command, and ends with exactly the outcome of `snapshot create`,
/// `list` or `switch`.
pub proof fn law_whole_snapshot_run(action: SnapshotActionView, world: SnapshotWorld)
    ensures
        run_from(action, world, SnapshotEvent::Start, 3) == (
            command_steps(action, world),
            Some(command_outcome(action, world)),
        ),
{
    reveal_with_fuel(run_from, 4);
    let r = run_from(action, world, SnapshotEvent::Start, 3);
    assert(r.0 =~= command_steps(action, world));
}

} // verus!

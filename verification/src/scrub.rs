//! `scrub` subcommand: which roots to verify, the report, its verdict and its text.
//!
//! Integrity is verified by resolving each live root (the committed root and
//! every snapshot root) through the content store, and by reloading the
//! metadata tree from the committed root. The outcome of each check is handed
//! to [`build_scrub_report`].

use vstd::prelude::*;
use crate::snapshot::{SnapshotInfo, lines_view, prefix16, root_hex, words_hex};
use crate::text::{chars_of, dec, dec_chars, extend_chars, extend_str, string_from_chars};

verus! {

/// Scrub report for the entire store.
pub struct ScrubReport {
    pub roots_verified: usize,
    pub corrupted_roots: usize,
    pub status: String,
    pub mounted: bool,
    pub errors: Vec<String>,
    /// Number of blocks with saturated refcounts (`u64::MAX`). Such blocks are
    /// never garbage-collected.
    pub saturated_blocks: usize,
}

/// The roots a scrub verifies: the committed root, if any, then every snapshot root in order.
pub open spec fn scrub_roots(root: Option<[u32; 7]>, snapshots: Seq<SnapshotInfo>) -> Seq<[u32; 7]> {
    let head: Seq<[u32; 7]> = match root {
        Some(r) => seq![r],
        None => Seq::empty(),
    };
    head + snapshots.map_values(|s: SnapshotInfo| s.root)
}

/// Collect all roots to verify: the current live root and the snapshot roots.
pub fn roots_to_verify(root: Option<[u32; 7]>, snapshots: &Vec<SnapshotInfo>) -> (r: Vec<[u32; 7]>)
    ensures
        r@ == scrub_roots(root, snapshots@),
{
    let mut out: Vec<[u32; 7]> = Vec::new();
    if let Some(r) = root {
        out.push(r);
    }
    let ghost head = out@;
    let mut i: usize = 0;
    while i < snapshots.len()
        invariant
            i <= snapshots@.len(),
            out@ == head + snapshots@.take(i as int).map_values(|s: SnapshotInfo| s.root),
        decreases snapshots.len() - i,
    {
        out.push(snapshots[i].root);
        proof {
            assert(snapshots@.take(i + 1).map_values(|s: SnapshotInfo| s.root) =~= snapshots@.take(
                i as int,
            ).map_values(|s: SnapshotInfo| s.root).push(snapshots@[i as int].root));
        }
        i += 1;
    }
    assert(snapshots@.take(snapshots.len() as int) =~= snapshots@);
    proof {
        let h: Seq<[u32; 7]> = match root {
            Some(r) => seq![r],
            None => Seq::empty(),
        };
        assert(head =~= h);
    }
    out
}

/// How the reload of the metadata tree from the committed root went.
pub enum MetadataCheck {
    /// There is no committed root, so nothing was reloaded.
    NoRoot,
    /// The tree reloaded; this many blocks have saturated refcounts.
    Loaded { saturated_blocks: usize },
    /// The reload failed with this message.
    Corrupt { message: String },
}

/// The error recorded for a root that does not resolve: its first 16 hex digits.
pub open spec fn missing_root_message(root: Seq<u32>) -> Seq<char> {
    "missing or corrupt root "@ + prefix16(words_hex(root))
}

/// The errors for the roots that did not resolve, in order.
pub open spec fn root_errors(roots: Seq<[u32; 7]>, resolved: Seq<bool>) -> Seq<Seq<char>>
    decreases roots.len(),
{
    if roots.len() == 0 {
        Seq::empty()
    } else {
        let rest = root_errors(roots.drop_last(), resolved.take(roots.len() - 1));
        if resolved[roots.len() - 1] {
            rest
        } else {
            rest.push(missing_root_message(roots.last()@))
        }
    }
}

/// How many checks succeeded.
pub open spec fn count_true(s: Seq<bool>) -> nat
    decreases s.len(),
{
    if s.len() == 0 {
        0
    } else {
        count_true(s.drop_last()) + if s.last() { 1nat } else { 0nat }
    }
}

/// All errors of a scrub: unresolved roots, then a corrupt metadata tree.
pub open spec fn scrub_errors(roots: Seq<[u32; 7]>, resolved: Seq<bool>, meta: MetadataCheck) -> Seq<
    Seq<char>,
> {
    let re = root_errors(roots, resolved);
    match meta {
        MetadataCheck::Corrupt { message } => re.push("metadata tree corrupt: "@ + message@),
        _ => re,
    }
}

/// `clean`, or how many errors were found.
pub open spec fn status_text(errors: nat) -> Seq<char> {
    if errors == 0 {
        "clean"@
    } else {
        "corrupted ("@ + dec(errors) + " error(s))"@
    }
}

fn missing_root_line(root: &[u32; 7]) -> (r: String)
    ensures
        r@ == missing_root_message(root@),
{
    let hex = root_hex(root);
    let h = chars_of(hex.as_str());
    let mut v = chars_of("missing or corrupt root ");
    let k: usize = if h.len() < 16 { h.len() } else { 16 };
    let ghost base = v@;
    let mut i: usize = 0;
    while i < k
        invariant
            i <= k <= h.len(),
            v@ == base + h@.take(i as int),
        decreases k - i,
    {
        v.push(h[i]);
        assert(h@.take(i as int).push(h@[i as int]) =~= h@.take(i + 1));
        i += 1;
    }
    proof {
        if h@.len() <= 16 {
            assert(h@.take(k as int) =~= h@);
        }
    }
    string_from_chars(&v)
}

/// Assemble the scrub report from the outcome of each check: `resolved[i]` says
/// whether `roots[i]` resolved, and `meta` how the metadata reload went.
pub fn build_scrub_report(
    roots: &Vec<[u32; 7]>,
    resolved: &Vec<bool>,
    meta: MetadataCheck,
    mounted: bool,
) -> (r: ScrubReport)
    requires
        resolved@.len() == roots@.len(),
    ensures
        r.roots_verified == count_true(resolved@),
        lines_view(r.errors@) == scrub_errors(roots@, resolved@, meta),
        r.corrupted_roots == r.errors@.len(),
        r.status@ == status_text(r.corrupted_roots as nat),
        r.mounted == mounted,
        r.saturated_blocks == (match meta {
            MetadataCheck::Loaded { saturated_blocks } => saturated_blocks,
            _ => 0usize,
        }),
{
    let mut verified: usize = 0;
    let mut errors: Vec<String> = Vec::new();
    let mut i: usize = 0;
    while i < roots.len()
        invariant
            i <= roots@.len(),
            resolved@.len() == roots@.len(),
            verified == count_true(resolved@.take(i as int)),
            verified <= i,
            errors@.len() <= i,
            lines_view(errors@) == root_errors(roots@.take(i as int), resolved@.take(i as int)),
        decreases roots.len() - i,
    {
        proof {
            let r1 = roots@.take(i + 1);
            let b1 = resolved@.take(i + 1);
            assert(r1.drop_last() =~= roots@.take(i as int));
            assert(b1.take(r1.len() - 1) =~= resolved@.take(i as int));
            assert(b1.drop_last() =~= resolved@.take(i as int));
        }
        if resolved[i] {
            verified += 1;
        } else {
            let line = missing_root_line(&roots[i]);
            let ghost before = errors@;
            errors.push(line);
            assert(lines_view(errors@) =~= lines_view(before).push(
                missing_root_message(roots@[i as int]@),
            ));
        }
        i += 1;
    }
    assert(roots@.take(roots.len() as int) =~= roots@);
    assert(resolved@.take(roots.len() as int) =~= resolved@);
    let mut saturated: usize = 0;
    match meta {
        MetadataCheck::NoRoot => {},
        MetadataCheck::Loaded { saturated_blocks } => {
            saturated = saturated_blocks;
        },
        MetadataCheck::Corrupt { message } => {
            let mut v = chars_of("metadata tree corrupt: ");
            extend_str(&mut v, message.as_str());
            let ghost before = errors@;
            errors.push(string_from_chars(&v));
            assert(lines_view(errors@) =~= lines_view(before).push(
                "metadata tree corrupt: "@ + message@,
            ));
        },
    }
    let n = errors.len();
    let status = if n == 0 {
        let v = chars_of("clean");
        string_from_chars(&v)
    } else {
        let mut v = chars_of("corrupted (");
        let d = dec_chars(n as u64);
        extend_chars(&mut v, &d);
        extend_str(&mut v, " error(s))");
        string_from_chars(&v)
    };
    ScrubReport {
        roots_verified: verified,
        corrupted_roots: n,
        status,
        mounted,
        errors,
        saturated_blocks: saturated,
    }
}

/// The verdict of a scrub: success when nothing is corrupt, else the error
/// `scrub found N error(s)`, which makes the command exit non-zero.
pub fn scrub_result(report: &ScrubReport) -> (r: Result<(), String>)
    ensures
        report.corrupted_roots == 0 ==> r is Ok,
        report.corrupted_roots > 0 ==> r is Err && r->Err_0@ == "scrub found "@ + dec(
            report.corrupted_roots as nat,
        ) + " error(s)"@,
{
    if report.corrupted_roots > 0 {
        let mut v = chars_of("scrub found ");
        let d = dec_chars(report.corrupted_roots as u64);
        extend_chars(&mut v, &d);
        extend_str(&mut v, " error(s)");
        Err(string_from_chars(&v))
    } else {
        Ok(())
    }
}

/// `yes` or `no`.
pub open spec fn yes_no(b: bool) -> Seq<char> {
    if b { "yes"@ } else { "no"@ }
}

/// The lines of the human-readable scrub report (standard output).
pub open spec fn report_lines(r: ScrubReport) -> Seq<Seq<char>> {
    let head = seq![
        "SliceFS Scrub Report"@,
        "===================="@,
        "Roots verified   : "@ + dec(r.roots_verified as nat),
        "Corrupted roots  : "@ + dec(r.corrupted_roots as nat),
        "Status           : "@ + r.status@,
        "Mounted          : "@ + yes_no(r.mounted),
        "Saturated blocks : "@ + dec(r.saturated_blocks as nat),
    ];
    if r.errors@.len() == 0 {
        head
    } else {
        head + seq![Seq::empty(), "Errors"@, "------"@] + r.errors@.map_values(
            |e: String| "  "@ + e@,
        )
    }
}

/// The warning on standard error about saturated refcounts, if any.
pub open spec fn saturation_warning(r: ScrubReport) -> Seq<Seq<char>> {
    if r.saturated_blocks > 0 {
        seq![
            "Warning: "@ + dec(r.saturated_blocks as nat)
                + " block(s) have saturated refcounts (immortal \u{2014} will not be GC'd)"@,
        ]
    } else {
        Seq::empty()
    }
}

fn line_with(prefix: &str, n: u64) -> (r: String)
    ensures
        r@ == prefix@ + dec(n as nat),
{
    let mut v = chars_of(prefix);
    let d = dec_chars(n);
    extend_chars(&mut v, &d);
    string_from_chars(&v)
}

fn line_str(prefix: &str, s: &str) -> (r: String)
    ensures
        r@ == prefix@ + s@,
{
    let mut v = chars_of(prefix);
    extend_str(&mut v, s);
    string_from_chars(&v)
}

/// The human-readable scrub report: the lines for standard output, and the
/// saturation warning for standard error.
pub fn scrub_report_lines(report: &ScrubReport) -> (r: (Vec<String>, Vec<String>))
    ensures
        lines_view(r.0@) == report_lines(*report),
        lines_view(r.1@) == saturation_warning(*report),
{
    let mut out: Vec<String> = Vec::new();
    out.push(line_str("SliceFS Scrub Report", ""));
    out.push(line_str("====================", ""));
    out.push(line_with("Roots verified   : ", report.roots_verified as u64));
    out.push(line_with("Corrupted roots  : ", report.corrupted_roots as u64));
    out.push(line_str("Status           : ", report.status.as_str()));
    out.push(line_str("Mounted          : ", if report.mounted { "yes" } else { "no" }));
    out.push(line_with("Saturated blocks : ", report.saturated_blocks as u64));
    proof {
        reveal_strlit("");
        reveal_strlit("yes");
        reveal_strlit("no");
    }
    let ghost head = out@;
    assert(lines_view(head) =~= report_lines(*report).take(7));
    if report.errors.len() > 0 {
        out.push(String::new());
        out.push(line_str("Errors", ""));
        out.push(line_str("------", ""));
        let ghost top = lines_view(out@);
        let mut i: usize = 0;
        while i < report.errors.len()
            invariant
                i <= report.errors@.len(),
                lines_view(out@) == top + report.errors@.take(i as int).map_values(
                    |e: String| "  "@ + e@,
                ),
            decreases report.errors.len() - i,
        {
            let line = line_str("  ", report.errors[i].as_str());
            let ghost before = out@;
            out.push(line);
            proof {
                assert(lines_view(out@) =~= lines_view(before).push("  "@ + report.errors@[i as int]@));
                assert(report.errors@.take(i + 1).map_values(|e: String| "  "@ + e@) =~= report.errors@.take(
                    i as int,
                ).map_values(|e: String| "  "@ + e@).push("  "@ + report.errors@[i as int]@));
            }
            i += 1;
        }
        assert(report.errors@.take(report.errors@.len() as int) =~= report.errors@);
    }
    assert(lines_view(out@) =~= report_lines(*report));
    let mut err: Vec<String> = Vec::new();
    if report.saturated_blocks > 0 {
        let mut v = chars_of("Warning: ");
        let d = dec_chars(report.saturated_blocks as u64);
        extend_chars(&mut v, &d);
        extend_str(&mut v, " block(s) have saturated refcounts (immortal \u{2014} will not be GC'd)");
        err.push(string_from_chars(&v));
    }
    assert(lines_view(err@) =~= saturation_warning(*report));
    (out, err)
}

/// The warning printed to standard error when the store is mounted: a JSON
/// object when the report is JSON, else a plain line.
pub fn mounted_warning(json: bool) -> (r: String)
    ensures
        json ==> r@ == "{\"warning\": \"Store is mounted; scrubbing closed segments only. Active writes not covered.\"}"@,
        !json ==> r@ == "Warning: Store is mounted; scrubbing closed segments only. Active writes not covered."@,
{
    if json {
        let v = chars_of("{\"warning\": \"Store is mounted; scrubbing closed segments only. Active writes not covered.\"}");
        string_from_chars(&v)
    } else {
        let v = chars_of("Warning: Store is mounted; scrubbing closed segments only. Active writes not covered.");
        string_from_chars(&v)
    }
}

// ── Laws ──────────────────────────────────────────────────────────────────────

/// Every root is either verified or reported: the verified count plus the root
/// errors is the number of roots, and there are no root errors exactly when
/// every root resolved.
pub proof fn law_every_root_accounted(roots: Seq<[u32; 7]>, resolved: Seq<bool>)
    requires
        resolved.len() == roots.len(),
    ensures
        count_true(resolved) + root_errors(roots, resolved).len() == roots.len(),
        root_errors(roots, resolved).len() == 0 <==> forall|i: int|
            0 <= i < resolved.len() ==> #[trigger] resolved[i],
    decreases roots.len(),
{
    if roots.len() > 0 {
        let n = roots.len() - 1;
        assert(resolved.take(n) =~= resolved.drop_last());
        law_every_root_accounted(roots.drop_last(), resolved.take(n));
        if root_errors(roots, resolved).len() == 0 {
            assert forall|i: int| 0 <= i < resolved.len() implies #[trigger] resolved[i] by {
                if i < n {
                    assert(resolved.take(n)[i] == resolved[i]);
                }
            }
        }
        if forall|i: int| 0 <= i < resolved.len() ==> #[trigger] resolved[i] {
            assert forall|i: int| 0 <= i < resolved.take(n).len() implies #[trigger] resolved.take(
                n,
            )[i] by {
                assert(resolved[i]);
            }
            assert(resolved[n]);
        }
    }
}

/// A scrub reports no error, and so succeeds, exactly when every root
/// resolved and the metadata tree reloaded (or there was none).
pub proof fn law_clean_scrub(roots: Seq<[u32; 7]>, resolved: Seq<bool>, meta: MetadataCheck)
    requires
        resolved.len() == roots.len(),
    ensures
        scrub_errors(roots, resolved, meta).len() == 0 <==> (forall|i: int|
            0 <= i < resolved.len() ==> #[trigger] resolved[i]) && !(meta is Corrupt),
{
    law_every_root_accounted(roots, resolved);
}

/// The scrub report says the store is mounted exactly when it was: it holds the
/// line `Mounted          : yes` exactly when `r.mounted`, and the line
/// `Mounted          : no` exactly when not.
pub proof fn law_scrub_mounted_line(r: ScrubReport)
    ensures
        report_lines(r).contains("Mounted          : yes"@) <==> r.mounted,
        report_lines(r).contains("Mounted          : no"@) <==> !r.mounted,
{
    reveal_strlit("SliceFS Scrub Report");
    reveal_strlit("====================");
    reveal_strlit("Roots verified   : ");
    reveal_strlit("Corrupted roots  : ");
    reveal_strlit("Status           : ");
    reveal_strlit("Mounted          : ");
    reveal_strlit("Saturated blocks : ");
    reveal_strlit("Mounted          : yes");
    reveal_strlit("Mounted          : no");
    reveal_strlit("yes");
    reveal_strlit("no");
    reveal_strlit("Errors");
    reveal_strlit("------");
    reveal_strlit("  ");
    let ls = report_lines(r);
    let m = "Mounted          : "@;
    let yes = "Mounted          : yes"@;
    let no = "Mounted          : no"@;
    assert(m + "yes"@ =~= yes);
    assert(m + "no"@ =~= no);
    assert(ls[5] == if r.mounted { yes } else { no });
    // Every other line is empty or starts with another character than `M`.
    assert forall|i: int| 0 <= i < ls.len() && i != 5 implies ls[i].len() == 0 || ls[i][0] != 'M' by {
        if i == 2 {
            assert(ls[i][0] == "Roots verified   : "@[0]);
        } else if i == 3 {
            assert(ls[i][0] == "Corrupted roots  : "@[0]);
        } else if i == 4 {
            assert(ls[i][0] == "Status           : "@[0]);
        } else if i == 6 {
            assert(ls[i][0] == "Saturated blocks : "@[0]);
        } else if i >= 10 {
            let e = r.errors@[i - 10];
            assert(ls[i] == "  "@ + e@);
            assert(ls[i][0] == "  "@[0]);
        }
    }
    if ls.contains(yes) {
        let i = choose|i: int| 0 <= i < ls.len() && ls[i] == yes;
        assert(yes[0] == 'M');
        if i != 5 {
            assert(ls[i].len() == 0 || ls[i][0] != 'M');
        }
        assert(r.mounted);
    }
    if ls.contains(no) {
        let i = choose|i: int| 0 <= i < ls.len() && ls[i] == no;
        assert(no[0] == 'M');
        if i != 5 {
            assert(ls[i].len() == 0 || ls[i][0] != 'M');
        }
        assert(!r.mounted);
    }
    if r.mounted {
        assert(ls[5] == yes);
    } else {
        assert(ls[5] == no);
    }
}

} // verus!

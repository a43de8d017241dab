//! FUSE-T backend selection: which mount backend (FSKit, SMB or NFS) to use,
//! the `--backend` flag, the installed FUSE-T version and the fallback prompt.
//!
//! Probing the machine (listing `/usr/local/lib`, running `sw_vers`, checking for
//! `/Applications/fuse-t.app`, asking whether stdin is a terminal, reading the
//! user's answer) is left to the caller; the functions here decide from what
//! the probes found.

use vstd::prelude::*;
use vstd::string::StringExecFns;
use crate::text::{
    chars_eq_str, chars_of, dec, dec_chars, ends_with, extend_chars, extend_str,
    lemma_split_char_nonempty, parse_unsigned_range, parse_unsigned_spec, range_ends_with,
    range_starts_with, split_char, split_ranges, starts_with, string_from_chars, trim, trim_chars,
    trim_range, lemma_dec_parses, lemma_dec_digits, lemma_split_append_plain,
};

verus! {

/// FUSE-T mount backend.
#[derive(Debug, Clone, Copy, PartialEq, Eq, Structural)]
pub enum FuseTBackend {
    /// FSKit backend — macOS 26+ only, requires fuse-t.app 1.2.0+.
    Fskit,
    /// SMB backend — available since FUSE-T 1.0.35.
    Smb,
    /// NFS backend.
    Nfs,
}

/// The value of the `--backend` flag that names `b`.
pub open spec fn backend_flag_name(b: FuseTBackend) -> Seq<char> {
    match b {
        FuseTBackend::Fskit => "fskit"@,
        FuseTBackend::Smb => "smb"@,
        FuseTBackend::Nfs => "nfs"@,
    }
}

/// The FUSE-T mount option that selects `b`.
pub open spec fn mount_option_spec(b: FuseTBackend) -> Seq<char> {
    match b {
        FuseTBackend::Fskit => "backend=fskit"@,
        FuseTBackend::Smb => "backend=smb"@,
        FuseTBackend::Nfs => "backend=nfs"@,
    }
}

/// The `Debug` name of `b`.
pub open spec fn backend_debug_name(b: FuseTBackend) -> Seq<char> {
    match b {
        FuseTBackend::Fskit => "Fskit"@,
        FuseTBackend::Smb => "Smb"@,
        FuseTBackend::Nfs => "Nfs"@,
    }
}

impl FuseTBackend {
    /// Returns the FUSE-T mount option string for this backend.
    ///
    /// Pass the result as `-o <value>` to FUSE-T at mount time.
    pub fn as_mount_option(&self) -> (r: &'static str)
        ensures
            r@ == mount_option_spec(*self),
    {
        match self {
            FuseTBackend::Fskit => "backend=fskit",
            FuseTBackend::Smb => "backend=smb",
            FuseTBackend::Nfs => "backend=nfs",
        }
    }

    /// The `Debug` name of this backend, as a `String`.
    pub fn debug_name(&self) -> (r: String)
        ensures
            r@ == backend_debug_name(*self),
    {
        match self {
            FuseTBackend::Fskit => String::from_str("Fskit"),
            FuseTBackend::Smb => String::from_str("Smb"),
            FuseTBackend::Nfs => String::from_str("Nfs"),
        }
    }
}

/// The backend that the `--backend` flag value `s` names, if any.
pub open spec fn parse_backend_flag_spec(s: Seq<char>) -> Option<FuseTBackend> {
    if s == "smb"@ {
        Some(FuseTBackend::Smb)
    } else if s == "nfs"@ {
        Some(FuseTBackend::Nfs)
    } else if s == "fskit"@ {
        Some(FuseTBackend::Fskit)
    } else {
        None
    }
}

/// What `format!("{:?}", s)` writes for a string `s`: the string quoted, with escapes.
pub uninterp spec fn debug_str_spec(s: Seq<char>) -> Seq<char>;

/// `format!("{:?}", s)` for a string slice (std's `Debug` for `str`). The contract
/// names the result; the escaping rules themselves are not restated.
#[verifier::external_body]
pub(crate) fn debug_str(s: &str) -> (r: String)
    ensures
        r@ == debug_str_spec(s@),
{
    format!("{:?}", s)
}

/// The error message for an unknown `--backend` value, given the value as
/// `Debug` writes it (quoted).
pub open spec fn unknown_backend_text(quoted: Seq<char>) -> Seq<char> {
    "unknown backend "@ + quoted + ". Valid values: smb, nfs, fskit"@
}

/// The error message for an unknown `--backend` value.
pub open spec fn unknown_backend_message(s: Seq<char>) -> Seq<char> {
    unknown_backend_text(debug_str_spec(s))
}

/// The error message for an unknown `--backend` value whose `Debug` form is `quoted`.
pub fn unknown_backend_error(quoted: &str) -> (r: String)
    ensures
        r@ == unknown_backend_text(quoted@),
{
    let mut m: Vec<char> = Vec::new();
    extend_str(&mut m, "unknown backend ");
    extend_str(&mut m, quoted);
    extend_str(&mut m, ". Valid values: smb, nfs, fskit");
    string_from_chars(&m)
}

/// Parse a `--backend` CLI flag value into a [`FuseTBackend`].
///
/// Accepts `"smb"`, `"nfs"`, or `"fskit"` (case-sensitive).
pub fn parse_backend_flag(s: &str) -> (r: Result<FuseTBackend, String>)
    ensures
        match parse_backend_flag_spec(s@) {
            Some(b) => r == Ok::<FuseTBackend, String>(b),
            None => r is Err && r->Err_0@ == unknown_backend_message(s@),
        },
{
    let v = chars_of(s);
    if chars_eq_str(&v, "smb") {
        Ok(FuseTBackend::Smb)
    } else if chars_eq_str(&v, "nfs") {
        Ok(FuseTBackend::Nfs)
    } else if chars_eq_str(&v, "fskit") {
        Ok(FuseTBackend::Fskit)
    } else {
        let d = debug_str(s);
        Err(unknown_backend_error(d.as_str()))
    }
}

// ── Version detection ─────────────────────────────────────────────────────────

/// A FUSE-T version `(major, minor, patch)`.
pub type Version = (u32, u32, u32);

/// The stem of a `libfuse-t-<stem>.dylib` file name.
pub open spec fn libfuse_t_stem(name: Seq<char>) -> Option<Seq<char>> {
    if starts_with(name, "libfuse-t-"@) && ends_with(name.skip(10), ".dylib"@) {
        Some(name.subrange(10, name.len() - 6))
    } else {
        None
    }
}

/// The version that the file name `name` carries, when it has the form
/// `libfuse-t-<major>.<minor>.<patch>.dylib` and each part parses as a `u32`.
pub open spec fn libfuse_t_version(name: Seq<char>) -> Option<Version> {
    match libfuse_t_stem(name) {
        Some(stem) => {
            let parts = split_char(stem, '.');
            if parts.len() == 3 {
                match (
                    parse_unsigned_spec(parts[0], u32::MAX as nat),
                    parse_unsigned_spec(parts[1], u32::MAX as nat),
                    parse_unsigned_spec(parts[2], u32::MAX as nat),
                ) {
                    (Some(a), Some(b), Some(c)) => Some((a as u32, b as u32, c as u32)),
                    _ => None,
                }
            } else {
                None
            }
        },
        None => None,
    }
}

/// Parse `libfuse-t-<major>.<minor>.<patch>.dylib` into a version tuple.
pub fn parse_libfuse_t_filename(name: &str) -> (r: Option<Version>)
    ensures
        r == libfuse_t_version(name@),
{
    let v = chars_of(name);
    let prefix = chars_of("libfuse-t-");
    let suffix = chars_of(".dylib");
    proof {
        reveal_strlit("libfuse-t-");
        reveal_strlit(".dylib");
    }
    if !range_starts_with(&v, 0, v.len(), &prefix) {
        assert(v@.subrange(0, v@.len() as int) =~= v@);
        return None;
    }
    assert(v@.subrange(0, v@.len() as int) =~= v@);
    assert(v@.subrange(10, v@.len() as int) =~= v@.skip(10));
    if !range_ends_with(&v, 10, v.len(), &suffix) {
        return None;
    }
    let stem_end = v.len() - 6;
    let parts = split_ranges(&v, 10, stem_end, '.');
    if parts.len() != 3 {
        return None;
    }
    let (a0, b0) = parts[0];
    let (a1, b1) = parts[1];
    let (a2, b2) = parts[2];
    let major = parse_unsigned_range(&v, a0, b0, 0xffff_ffff);
    let minor = parse_unsigned_range(&v, a1, b1, 0xffff_ffff);
    let patch = parse_unsigned_range(&v, a2, b2, 0xffff_ffff);
    match (major, minor, patch) {
        (Some(x), Some(y), Some(z)) => Some((x as u32, y as u32, z as u32)),
        _ => None,
    }
}

/// Splitting `s` followed by `c` gives the pieces of `s`, then an empty one.
proof fn lemma_split_push_sep(s: Seq<char>, c: char)
    ensures
        split_char(s.push(c), c) == split_char(s, c).push(Seq::<char>::empty()),
{
    assert(s.push(c).drop_last() =~= s);
}

/// The file name of FUSE-T version `(a, b, c)`, as the library is installed:
/// `libfuse-t-<a>.<b>.<c>.dylib`.
pub open spec fn libfuse_t_name(a: u32, b: u32, c: u32) -> Seq<char> {
    "libfuse-t-"@ + dec(a as nat) + "."@ + dec(b as nat) + "."@ + dec(c as nat) + ".dylib"@
}

/// The installed library's file name gives back its version.
pub proof fn law_libfuse_t_name_round_trip(a: u32, b: u32, c: u32)
    ensures
        libfuse_t_version(libfuse_t_name(a, b, c)) == Some((a, b, c)),
{
    reveal_strlit("libfuse-t-");
    reveal_strlit(".");
    reveal_strlit(".dylib");
    let (da, db, dc) = (dec(a as nat), dec(b as nat), dec(c as nat));
    lemma_dec_digits(a as nat);
    lemma_dec_digits(b as nat);
    lemma_dec_digits(c as nat);
    let stem = da + seq!['.'] + db + seq!['.'] + dc;
    let name = libfuse_t_name(a, b, c);
    assert(name =~= "libfuse-t-"@ + stem + ".dylib"@);
    assert(name.take(10) =~= "libfuse-t-"@);
    assert(name.skip(10).skip(name.skip(10).len() - 6) =~= ".dylib"@);
    assert(name.subrange(10, name.len() - 6) =~= stem);
    assert(libfuse_t_stem(name) == Some(stem));
    // The stem splits at its two dots into the three numbers.
    let e = Seq::<char>::empty();
    lemma_split_append_plain(e, da, '.');
    assert(e + da =~= da);
    assert(split_char(e, '.') =~= seq![e]);
    assert(split_char(da, '.') =~= seq![da]);
    lemma_split_push_sep(da, '.');
    lemma_split_append_plain(da.push('.'), db, '.');
    lemma_split_push_sep(da.push('.') + db, '.');
    lemma_split_append_plain((da.push('.') + db).push('.'), dc, '.');
    assert(((da.push('.') + db).push('.') + dc) =~= stem);
    assert(split_char(stem, '.') =~= seq![da, db, dc]);
    lemma_dec_parses(a as nat, u32::MAX as nat);
    lemma_dec_parses(b as nat, u32::MAX as nat);
    lemma_dec_parses(c as nat, u32::MAX as nat);
}

/// The version of the first file name in `names` that names a FUSE-T library.
pub open spec fn first_libfuse_t_version(names: Seq<Seq<char>>) -> Option<Version>
    decreases names.len(),
{
    if names.len() == 0 {
        None
    } else {
        match libfuse_t_version(names[0]) {
            Some(v) => Some(v),
            None => first_libfuse_t_version(names.drop_first()),
        }
    }
}

/// Detect the installed FUSE-T version from the file names found in the
/// library directory (`/usr/local/lib` in production).
///
/// Returns the version of the first name of the form
/// `libfuse-t-<major>.<minor>.<patch>.dylib`, or `None` if there is none.
pub fn detect_fuse_t_version(names: &Vec<String>) -> (r: Option<Version>)
    ensures
        r == first_libfuse_t_version(names.deep_view()),
{
    let mut i: usize = 0;
    assert(names.deep_view().skip(0) =~= names.deep_view());
    while i < names.len()
        invariant
            i <= names.len(),
            first_libfuse_t_version(names.deep_view()) == first_libfuse_t_version(
                names.deep_view().skip(i as int),
            ),
        decreases names.len() - i,
    {
        let ghost rest = names.deep_view().skip(i as int);
        assert(rest[0] == names[i as int]@);
        assert(rest.drop_first() =~= names.deep_view().skip(i + 1));
        if let Some(v) = parse_libfuse_t_filename(names[i].as_str()) {
            return Some(v);
        }
        i += 1;
    }
    assert(names.deep_view().skip(i as int) =~= Seq::<Seq<char>>::empty());
    None
}

// ── macOS / FSKit availability ────────────────────────────────────────────────

/// Whether `sw_vers -productVersion` printed a macOS version whose major part
/// (the text before the first `.`, after trimming) is a number of at least 26.
pub open spec fn macos_26_or_later_spec(output: Seq<char>) -> bool {
    let major = split_char(trim(output), '.')[0];
    match parse_unsigned_spec(major, u32::MAX as nat) {
        Some(m) => m >= 26,
        None => false,
    }
}

/// Decide from the output of `sw_vers -productVersion` whether macOS is 26 or later.
pub fn macos_version_is_26_or_later(output: &str) -> (r: bool)
    ensures
        r == macos_26_or_later_spec(output@),
{
    let v = chars_of(output);
    let (a, b) = trim_range(&v, 0, v.len());
    assert(v@.subrange(0, v@.len() as int) =~= v@);
    let parts = split_ranges(&v, a, b, '.');
    proof {
        lemma_split_char_nonempty(v@.subrange(a as int, b as int), '.');
    }
    let (p0, p1) = parts[0];
    match parse_unsigned_range(&v, p0, p1, 0xffff_ffff) {
        Some(m) => m >= 26,
        None => false,
    }
}

/// Returns `true` if the FSKit backend is available: macOS 26+ and
/// `/Applications/fuse-t.app` present.
pub fn is_fskit_available(macos_26_or_later: bool, fuse_t_app_present: bool) -> (r: bool)
    ensures
        r == (macos_26_or_later && fuse_t_app_present),
{
    macos_26_or_later && fuse_t_app_present
}

// ── Backend selection ─────────────────────────────────────────────────────────

/// Minimum FUSE-T version required for SMB backend support.
pub open spec fn min_version() -> Version {
    (1, 0, 35)
}

/// `a < b` in the order of version tuples.
pub open spec fn version_lt(a: Version, b: Version) -> bool {
    a.0 < b.0 || (a.0 == b.0 && (a.1 < b.1 || (a.1 == b.1 && a.2 < b.2)))
}

/// The error for a FUSE-T that is older than the minimum.
pub open spec fn too_old_message(v: Version) -> Seq<char> {
    "FUSE-T "@ + dec(v.0 as nat) + "."@ + dec(v.1 as nat) + "."@ + dec(v.2 as nat)
        + " is too old. Minimum required: 1.0.35 (for SMB backend support). Please update FUSE-T from https://github.com/macos-fuse-t/fuse-t/releases"@
}

/// The error for an explicit FSKit request on a machine without FSKit.
pub open spec fn fskit_unavailable_message() -> Seq<char> {
    "FSKit backend not available. FSKit requires macOS 26+ and fuse-t.app installed at /Applications/fuse-t.app."@
}

/// The outcome of backend selection, with the error message as characters.
pub open spec fn select_backend_spec(
    requested: Option<FuseTBackend>,
    version: Version,
    fskit_available: bool,
) -> Result<FuseTBackend, Seq<char>> {
    if version_lt(version, min_version()) {
        Err(too_old_message(version))
    } else {
        match requested {
            Some(FuseTBackend::Fskit) if !fskit_available => Err(fskit_unavailable_message()),
            Some(b) => Ok(b),
            None => Ok(FuseTBackend::Nfs),
        }
    }
}

/// A `Result` whose error message is taken by its characters.
pub open spec fn result_view<T>(r: Result<T, String>) -> Result<T, Seq<char>> {
    match r {
        Ok(t) => Ok(t),
        Err(e) => Err(e@),
    }
}

/// Select the FUSE-T backend given explicit request, force flag, detected version, and
/// FSKit availability.
///
/// Versions older than 1.0.35 are refused; an explicit FSKit request is refused when
/// FSKit is unavailable; any other explicit request is granted; without a request
/// the NFS backend is chosen. `force` is accepted and no longer changes the outcome.
pub fn select_backend(
    requested: Option<FuseTBackend>,
    force: bool,
    version: Version,
    fskit_available: bool,
) -> (r: Result<FuseTBackend, String>)
    ensures
        result_view(r) == select_backend_spec(requested, version, fskit_available),
{
    let _ = force;
    let (major, minor, patch) = version;
    if major < 1 || (major == 1 && (minor < 0 || (minor == 0 && patch < 35))) {
        let mut m: Vec<char> = Vec::new();
        extend_str(&mut m, "FUSE-T ");
        let d0 = dec_chars(major as u64);
        extend_chars(&mut m, &d0);
        extend_str(&mut m, ".");
        let d1 = dec_chars(minor as u64);
        extend_chars(&mut m, &d1);
        extend_str(&mut m, ".");
        let d2 = dec_chars(patch as u64);
        extend_chars(&mut m, &d2);
        extend_str(
            &mut m,
            " is too old. Minimum required: 1.0.35 (for SMB backend support). Please update FUSE-T from https://github.com/macos-fuse-t/fuse-t/releases",
        );
        return Err(string_from_chars(&m));
    }
    match requested {
        Some(FuseTBackend::Fskit) if !fskit_available => Err(
            String::from_str(
                "FSKit backend not available. FSKit requires macOS 26+ and fuse-t.app installed at /Applications/fuse-t.app.",
            ),
        ),
        Some(backend) => Ok(backend),
        None => Ok(FuseTBackend::Nfs),
    }
}

/// Whether selection should print the hint that FSKit is available: no backend was
/// requested, the version passes the minimum, and FSKit is available.
pub fn fskit_hint_due(requested: Option<FuseTBackend>, version: Version, fskit_available: bool) -> (r: bool)
    ensures
        r == (requested is None && !version_lt(version, min_version()) && fskit_available),
{
    let (major, minor, patch) = version;
    let too_old = major < 1 || (major == 1 && (minor < 0 || (minor == 0 && patch < 35)));
    requested.is_none() && !too_old && fskit_available
}

/// The error when no FUSE-T installation is found.
pub open spec fn fuse_t_missing_message() -> Seq<char> {
    "FUSE-T not found. Install from https://github.com/macos-fuse-t/fuse-t/releases"@
}

/// Auto-select the backend from what detection found: the installed version (if any)
/// and whether FSKit is available. Returns `(backend, version)`.
pub fn select_backend_auto(
    requested: Option<FuseTBackend>,
    force: bool,
    detected_version: Option<Version>,
    fskit_available: bool,
) -> (r: Result<(FuseTBackend, Version), String>)
    ensures
        match detected_version {
            None => r is Err && r->Err_0@ == fuse_t_missing_message(),
            Some(v) => match select_backend_spec(requested, v, fskit_available) {
                Ok(b) => r == Ok::<(FuseTBackend, Version), String>((b, v)),
                Err(m) => r is Err && r->Err_0@ == m,
            },
        },
{
    match detected_version {
        None => Err(
            String::from_str(
                "FUSE-T not found. Install from https://github.com/macos-fuse-t/fuse-t/releases",
            ),
        ),
        Some(version) => match select_backend(requested, force, version, fskit_available) {
            Ok(backend) => Ok((backend, version)),
            Err(e) => Err(e),
        },
    }
}

// ── Fallback confirmation ─────────────────────────────────────────────────────

/// The user's reply `line` refuses the fallback: after trimming it is `n` or `N`.
pub open spec fn is_refusal(line: Seq<char>) -> bool {
    trim(line) == "n"@ || trim(line) == "N"@
}

/// The error when the user refuses the fallback.
pub open spec fn cancelled_message() -> Seq<char> {
    "Mount cancelled by user."@
}

/// Decide the fallback confirmation. `reply` is the line the user typed when stdin
/// is an interactive terminal, and `None` when it is not (the fallback is then
/// accepted without asking).
pub fn confirm_fallback(fallback_backend: FuseTBackend, reply: Option<&str>) -> (r: Result<
    FuseTBackend,
    String,
>)
    ensures
        match reply {
            Some(line) if is_refusal(line@) => r is Err && r->Err_0@ == cancelled_message(),
            _ => r == Ok::<FuseTBackend, String>(fallback_backend),
        },
{
    match reply {
        Some(line) => {
            let t = trim_chars(line);
            if chars_eq_str(&t, "n") || chars_eq_str(&t, "N") {
                Err(String::from_str("Mount cancelled by user."))
            } else {
                Ok(fallback_backend)
            }
        },
        None => Ok(fallback_backend),
    }
}

/// Testable form of [`confirm_fallback`] with an explicit `is_tty` flag: `line` is the
/// reply read from the user, consulted only when `is_tty` holds.
pub fn confirm_fallback_with_tty(fallback_backend: FuseTBackend, line: &str, is_tty: bool) -> (r:
    Result<FuseTBackend, String>)
    ensures
        if is_tty && is_refusal(line@) {
            r is Err && r->Err_0@ == cancelled_message()
        } else {
            r == Ok::<FuseTBackend, String>(fallback_backend)
        },
{
    if is_tty {
        confirm_fallback(fallback_backend, Some(line))
    } else {
        confirm_fallback(fallback_backend, None)
    }
}

/// The warning printed before falling back to `fallback_backend`.
pub open spec fn fallback_warning_spec(reason: Seq<char>, b: FuseTBackend) -> Seq<char> {
    "warning: "@ + reason + ". Falling back to "@ + backend_debug_name(b) + " backend."@
}

/// The question asked on an interactive terminal before falling back.
pub open spec fn fallback_question_spec(b: FuseTBackend) -> Seq<char> {
    "Continue with "@ + backend_debug_name(b) + " backend? [Y/n] "@
}

/// The warning printed before falling back to `fallback_backend`.
pub fn fallback_warning(reason: &str, fallback_backend: FuseTBackend) -> (r: String)
    ensures
        r@ == fallback_warning_spec(reason@, fallback_backend),
{
    let mut m: Vec<char> = Vec::new();
    extend_str(&mut m, "warning: ");
    extend_str(&mut m, reason);
    extend_str(&mut m, ". Falling back to ");
    let n = fallback_backend.debug_name();
    extend_str(&mut m, n.as_str());
    extend_str(&mut m, " backend.");
    string_from_chars(&m)
}

/// The question asked on an interactive terminal before falling back.
pub fn fallback_question(fallback_backend: FuseTBackend) -> (r: String)
    ensures
        r@ == fallback_question_spec(fallback_backend),
{
    let mut m: Vec<char> = Vec::new();
    extend_str(&mut m, "Continue with ");
    let n = fallback_backend.debug_name();
    extend_str(&mut m, n.as_str());
    extend_str(&mut m, " backend? [Y/n] ");
    string_from_chars(&m)
}

// ── Laws ──────────────────────────────────────────────────────────────────────

/// Every backend's flag name parses back to that backend, and its mount option
/// is `backend=` followed by that name.
pub proof fn law_backend_names_round_trip(b: FuseTBackend)
    ensures
        parse_backend_flag_spec(backend_flag_name(b)) == Some(b),
        mount_option_spec(b) == "backend="@ + backend_flag_name(b),
{
    reveal_strlit("smb");
    reveal_strlit("nfs");
    reveal_strlit("fskit");
    reveal_strlit("backend=");
    reveal_strlit("backend=smb");
    reveal_strlit("backend=nfs");
    reveal_strlit("backend=fskit");
    assert("nfs"@[0] != "smb"@[0]);
    assert("fskit"@.len() != "smb"@.len());
    assert("fskit"@.len() != "nfs"@.len());
    assert(mount_option_spec(b) =~= "backend="@ + backend_flag_name(b));
}

/// A selected backend always passed the version gate, FSKit is only selected
/// where it is available, an explicit request is granted as asked, and without
/// one NFS is chosen.
pub proof fn law_selection_is_safe(
    requested: Option<FuseTBackend>,
    version: Version,
    fskit_available: bool,
)
    ensures
        select_backend_spec(requested, version, fskit_available) matches Ok(b) ==> {
            &&& !version_lt(version, min_version())
            &&& (b == FuseTBackend::Fskit ==> fskit_available)
            &&& (requested is None ==> b == FuseTBackend::Nfs)
            &&& (requested matches Some(x) ==> b == x)
        },
        version_lt(version, min_version()) ==> select_backend_spec(requested, version, fskit_available)
            is Err,
{
}

} // verus!

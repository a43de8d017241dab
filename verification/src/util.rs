//! Shared helpers: the wall-clock time of day for log lines.

use vstd::prelude::*;
use crate::snapshot::two_digits;
use crate::text::{dec, dec_chars, extend_chars, pad_left, pad_left_chars, string_from_chars};

verus! {

/// Time since the Unix epoch as whole seconds and the milliseconds beyond them,
/// read from the system clock (`UNIX_EPOCH.elapsed()`); zero when the clock is
/// before the epoch. The clock's value itself is not stated; `Duration`
/// documents that the milliseconds are below one thousand.
#[verifier::external_body]
fn unix_now() -> (r: (u64, u32))
    ensures
        r.1 < 1000,
{
    let d = std::time::UNIX_EPOCH.elapsed().unwrap_or_default();
    (d.as_secs(), d.subsec_millis())
}

/// `HH:MM:SS.mmm` (UTC) for `secs` seconds and `millis` milliseconds since the epoch.
pub open spec fn clock_text(secs: nat, millis: nat) -> Seq<char> {
    two_digits((secs / 3600) % 24) + seq![':'] + two_digits((secs / 60) % 60) + seq![':']
        + two_digits(secs % 60) + seq!['.'] + pad_left(dec(millis), 3, '0')
}

fn push_two(v: &mut Vec<char>, n: u64)
    ensures
        final(v)@ == old(v)@ + two_digits(n as nat),
{
    let d = dec_chars(n);
    let p = pad_left_chars(&d, 2, '0');
    extend_chars(v, &p);
}

/// The time of day `secs` / `millis` as `HH:MM:SS.mmm`.
pub fn format_clock(secs: u64, millis: u32) -> (r: String)
    ensures
        r@ == clock_text(secs as nat, millis as nat),
{
    let mut v: Vec<char> = Vec::new();
    push_two(&mut v, (secs / 3600) % 24);
    v.push(':');
    push_two(&mut v, (secs / 60) % 60);
    v.push(':');
    push_two(&mut v, secs % 60);
    v.push('.');
    let d = dec_chars(millis as u64);
    let p = pad_left_chars(&d, 3, '0');
    extend_chars(&mut v, &p);
    assert(v@ =~= clock_text(secs as nat, millis as nat));
    string_from_chars(&v)
}

/// Return the current wall-clock time formatted as `HH:MM:SS.mmm` (UTC).
pub fn ts() -> (r: String)
    ensures
        exists|secs: nat, millis: nat| millis < 1000 && r@ == clock_text(secs, millis),
{
    let (secs, millis) = unix_now();
    format_clock(secs, millis)
}

} // verus!

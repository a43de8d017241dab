//! The proleptic Gregorian calendar, counted in days from 1970-01-01.

use vstd::prelude::*;
use vstd::arithmetic::div_mod::lemma_fundamental_div_mod_converse;

verus! {

/// Gregorian leap-year rule.
pub open spec fn is_leap(y: int) -> bool {
    y % 4 == 0 && (y % 100 != 0 || y % 400 == 0)
}

/// Number of days in year `y`.
pub open spec fn year_len(y: int) -> int {
    if is_leap(y) { 366 } else { 365 }
}

/// Number of days in month `m` (1-based) of year `y`.
pub open spec fn month_len(y: int, m: int) -> int {
    if m == 2 {
        if is_leap(y) { 29 } else { 28 }
    } else if m == 4 || m == 6 || m == 9 || m == 11 {
        30
    } else {
        31
    }
}

/// Days of year `y` that come before the first of month `m` (1-based).
pub open spec fn days_before_month(y: int, m: int) -> int {
    let base: int = if m <= 1 { 0 } else if m == 2 { 31 } else if m == 3 { 59 } else if m == 4 { 90 }
        else if m == 5 { 120 } else if m == 6 { 151 } else if m == 7 { 181 } else if m == 8 { 212 }
        else if m == 9 { 243 } else if m == 10 { 273 } else if m == 11 { 304 } else { 334 };
    if m > 2 && is_leap(y) { base + 1 } else { base }
}

/// Number of leap years among the years `1..=n` (for `n >= 0`).
pub open spec fn leaps_through(n: int) -> int {
    n / 4 - n / 100 + n / 400
}

/// Days from 1970-01-01 to the first of January of year `y`.
pub open spec fn days_before_year(y: int) -> int {
    365 * (y - 1970) + leaps_through(y - 1) - leaps_through(1969)
}

/// Whether `y-m-d` is a date of the calendar on or after 1970-01-01.
pub open spec fn valid_date(y: int, m: int, d: int) -> bool {
    &&& y >= 1970
    &&& 1 <= m <= 12
    &&& 1 <= d <= month_len(y, m)
}

/// Days from 1970-01-01 to `y-m-d`.
pub open spec fn days_from_civil(y: int, m: int, d: int) -> int {
    days_before_year(y) + days_before_month(y, m) + d - 1
}

/// The date that lies `days` days after 1970-01-01.
pub open spec fn date_of(days: nat) -> (int, int, int) {
    choose|ymd: (int, int, int)|
        valid_date(ymd.0, ymd.1, ymd.2) && days_from_civil(ymd.0, ymd.1, ymd.2) == days
}

proof fn lemma_step_indicator(n: int, k: int)
    requires
        k > 0,
    ensures
        n / k - (n - 1) / k == (if n % k == 0 { 1int } else { 0int }),
{
    let q = (n - 1) / k;
    let r = (n - 1) % k;
    assert(0 <= r < k) by {
        vstd::arithmetic::div_mod::lemma_mod_bound(n - 1, k);
    }
    assert(n - 1 == q * k + r) by {
        vstd::arithmetic::div_mod::lemma_fundamental_div_mod(n - 1, k);
        assert(k * q == q * k) by (nonlinear_arith);
    }
    if r == k - 1 {
        assert(n == (q + 1) * k + 0) by (nonlinear_arith)
            requires n - 1 == q * k + r, r == k - 1;
        lemma_fundamental_div_mod_converse(n, k, q + 1, 0);
    } else {
        lemma_fundamental_div_mod_converse(n, k, q, r + 1);
    }
}

proof fn lemma_divides_chain(y: int)
    ensures
        y % 100 == 0 ==> y % 4 == 0,
        y % 400 == 0 ==> y % 100 == 0,
{
    if y % 100 == 0 {
        let q = y / 100;
        vstd::arithmetic::div_mod::lemma_fundamental_div_mod(y, 100);
        assert(y == (25 * q) * 4 + 0) by (nonlinear_arith)
            requires y == 100 * q + y % 100, y % 100 == 0;
        lemma_fundamental_div_mod_converse(y, 4, 25 * q, 0);
    }
    if y % 400 == 0 {
        let q = y / 400;
        vstd::arithmetic::div_mod::lemma_fundamental_div_mod(y, 400);
        assert(y == (4 * q) * 100 + 0) by (nonlinear_arith)
            requires y == 400 * q + y % 400, y % 400 == 0;
        lemma_fundamental_div_mod_converse(y, 100, 4 * q, 0);
    }
}

/// Consecutive years: the next year starts `year_len(y)` days later.
pub proof fn lemma_next_year(y: int)
    ensures
        days_before_year(y + 1) == days_before_year(y) + year_len(y),
{
    lemma_step_indicator(y, 4);
    lemma_step_indicator(y, 100);
    lemma_step_indicator(y, 400);
    lemma_divides_chain(y);
}

/// A 400-year cycle that starts in 1970 holds exactly 146097 days.
pub proof fn lemma_era_start(e: int)
    requires
        e >= 0,
    ensures
        days_before_year(1970 + 400 * e) == 146097 * e,
{
    lemma_fundamental_div_mod_converse(1969 + 400 * e, 4, 492 + 100 * e, 1);
    lemma_fundamental_div_mod_converse(1969 + 400 * e, 100, 19 + 4 * e, 69);
    lemma_fundamental_div_mod_converse(1969 + 400 * e, 400, 4 + e, 369);
    lemma_fundamental_div_mod_converse(1969, 4, 492, 1);
    lemma_fundamental_div_mod_converse(1969, 100, 19, 69);
    lemma_fundamental_div_mod_converse(1969, 400, 4, 369);
}

/// Years start later as the year grows.
pub proof fn lemma_year_order(a: int, b: int)
    requires
        a <= b,
    ensures
        days_before_year(a) + (b - a) * 365 <= days_before_year(b),
    decreases b - a,
{
    if a < b {
        lemma_year_order(a, b - 1);
        lemma_next_year(b - 1);
    }
}

pub proof fn lemma_month_step(y: int, m: int)
    requires
        1 <= m < 12,
    ensures
        days_before_month(y, m + 1) == days_before_month(y, m) + month_len(y, m),
{
}

pub proof fn lemma_year_tail(y: int)
    ensures
        days_before_month(y, 12) + month_len(y, 12) == year_len(y),
{
}

proof fn lemma_in_year(y: int, m: int, d: int)
    requires
        valid_date(y, m, d),
    ensures
        0 <= days_before_month(y, m) + d - 1 < year_len(y),
{
}

proof fn lemma_month_unique(y: int, m1: int, d1: int, m2: int, d2: int)
    requires
        valid_date(y, m1, d1),
        valid_date(y, m2, d2),
        days_before_month(y, m1) + d1 == days_before_month(y, m2) + d2,
    ensures
        m1 == m2 && d1 == d2,
{
    if m1 < m2 {
        assert(days_before_month(y, m1) + month_len(y, m1) <= days_before_month(y, m2));
    } else if m2 < m1 {
        assert(days_before_month(y, m2) + month_len(y, m2) <= days_before_month(y, m1));
    }
}

/// A day count names at most one date.
pub proof fn lemma_date_unique(y1: int, m1: int, d1: int, y2: int, m2: int, d2: int)
    requires
        valid_date(y1, m1, d1),
        valid_date(y2, m2, d2),
        days_from_civil(y1, m1, d1) == days_from_civil(y2, m2, d2),
    ensures
        y1 == y2 && m1 == m2 && d1 == d2,
{
    lemma_in_year(y1, m1, d1);
    lemma_in_year(y2, m2, d2);
    if y1 < y2 {
        lemma_next_year(y1);
        lemma_year_order(y1 + 1, y2);
    } else if y2 < y1 {
        lemma_next_year(y2);
        lemma_year_order(y2 + 1, y1);
    }
    lemma_month_unique(y1, m1, d1, m2, d2);
}

/// Once a date of day count `days` is known, `date_of(days)` is that date.
pub proof fn lemma_date_of(days: nat, y: int, m: int, d: int)
    requires
        valid_date(y, m, d),
        days_from_civil(y, m, d) == days,
    ensures
        date_of(days) == (y, m, d),
{
    let t = (y, m, d);
    assert(valid_date(t.0, t.1, t.2) && days_from_civil(t.0, t.1, t.2) == days);
    let w = date_of(days);
    assert(valid_date(w.0, w.1, w.2) && days_from_civil(w.0, w.1, w.2) == days);
    lemma_date_unique(w.0, w.1, w.2, y, m, d);
}

/// Every day count from the epoch on names a date of the calendar, and that
/// date counts back to the same number of days.
pub proof fn law_every_day_has_a_date(days: nat)
    ensures
        valid_date(date_of(days).0, date_of(days).1, date_of(days).2),
        days_from_civil(date_of(days).0, date_of(days).1, date_of(days).2) == days,
    decreases days,
{
    if days == 0 {
        lemma_date_of(0, 1970, 1, 1);
    } else {
        law_every_day_has_a_date((days - 1) as nat);
        let p = date_of((days - 1) as nat);
        if p.2 < month_len(p.0, p.1) {
            lemma_date_of(days, p.0, p.1, p.2 + 1);
        } else if p.1 < 12 {
            lemma_month_step(p.0, p.1);
            lemma_date_of(days, p.0, p.1 + 1, 1);
        } else {
            lemma_year_tail(p.0);
            lemma_next_year(p.0);
            lemma_date_of(days, p.0 + 1, 1, 1);
        }
    }
}

/// A date of the calendar counts to a day number that names it again.
pub proof fn law_date_round_trip(y: int, m: int, d: int)
    requires
        valid_date(y, m, d),
    ensures
        days_from_civil(y, m, d) >= 0,
        date_of(days_from_civil(y, m, d) as nat) == (y, m, d),
{
    lemma_year_order(1970, y);
    lemma_era_start(0);
    lemma_date_of(days_from_civil(y, m, d) as nat, y, m, d);
}

} // verus!

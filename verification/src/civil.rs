//! Gregorian calendar arithmetic: turning a count of days since 1970-01-01
//! into a calendar date, and rendering UTC timestamps as RFC 3339 text.

use vstd::prelude::*;

use crate::clock::now_unix_secs;
use crate::text::{nat_decimal, push_char, u64_to_string};

verus! {

/// Leap years of the proleptic Gregorian calendar.
pub open spec fn is_leap(y: int) -> bool {
    y % 4 == 0 && (y % 100 != 0 || y % 400 == 0)
}

/// Number of days in month `m` (1..=12) of year `y`.
pub open spec fn days_in_month(y: int, m: int) -> int {
    if m == 2 {
        if is_leap(y) { 29 } else { 28 }
    } else if m == 4 || m == 6 || m == 9 || m == 11 {
        30
    } else {
        31
    }
}

/// Days in the months of year `y` before month `m`.
pub open spec fn days_before_month(y: int, m: int) -> int
    decreases m,
{
    if m <= 1 {
        0
    } else {
        days_before_month(y, m - 1) + days_in_month(y, m - 1)
    }
}

/// Leap years among years 1..y-1 (for y >= 1).
pub open spec fn leaps_before(y: int) -> int {
    (y - 1) / 4 - (y - 1) / 100 + (y - 1) / 400
}

/// Day number of a date of the proleptic Gregorian calendar, counted from
/// 1970-01-01 (day 0, negative before it): whole years, then whole months,
/// then days.
pub open spec fn days_from_civil(y: int, m: int, d: int) -> int {
    365 * (y - 1970) + (leaps_before(y) - leaps_before(1970)) + days_before_month(y, m) + (d - 1)
}

/// A real calendar date.
pub open spec fn valid_date(y: int, m: int, d: int) -> bool {
    1 <= m <= 12 && 1 <= d <= days_in_month(y, m)
}

/// Length of the year of an era (400 years) that starts on March 1 of year
/// `yoe` of the era: 366 when the following February has 29 days.
pub open spec fn shifted_year_len(yoe: int) -> int {
    if (yoe + 1) % 4 == 0 && ((yoe + 1) % 100 != 0 || yoe == 399) { 366 } else { 365 }
}

pub open spec fn shifted_year_start(yoe: int) -> int {
    365 * yoe + yoe / 4 - yoe / 100
}

pub proof fn lemma_year_of_era(doe: int)
    requires
        0 <= doe < 146097,
    ensures
        ({
            let yoe = (doe - doe / 1460 + doe / 36524 - doe / 146096) / 365;
            &&& 0 <= yoe <= 399
            &&& shifted_year_start(yoe) <= doe < shifted_year_start(yoe) + shifted_year_len(yoe)
        }),
{
}


/// Length of month `mp` of a March-based year (0 = March, ..., 11 = February)
/// of `len` days.
pub open spec fn shifted_month_len(mp: int, len: int) -> int {
    if mp == 11 {
        len - 337
    } else if mp == 1 || mp == 3 || mp == 6 || mp == 8 {
        30
    } else {
        31
    }
}

pub proof fn lemma_month_of_year(doy: int, len: int)
    requires
        len == 365 || len == 366,
        0 <= doy < len,
    ensures
        ({
            let mp = (5 * doy + 2) / 153;
            let d = doy - (153 * mp + 2) / 5 + 1;
            &&& 0 <= mp <= 11
            &&& 1 <= d <= shifted_month_len(mp, len)
        }),
{
}

/// Days before month `m` of a year, in closed form.
pub proof fn lemma_days_before_month(y: int, m: int)
    requires
        1 <= m <= 12,
    ensures
        days_before_month(y, m) == (if m <= 2 {
            31 * (m - 1)
        } else {
            (153 * (m - 3) + 2) / 5 + 59 + if is_leap(y) { 1int } else { 0int }
        }),
{
    reveal_with_fuel(days_before_month, 13);
}

/// The count of leap years steps by one exactly after a leap year.
pub proof fn lemma_leaps_step(y: int)
    ensures
        leaps_before(y + 1) == leaps_before(y) + if is_leap(y) { 1int } else { 0int },
{
}

/// March 1 of year `y`, as a day number, in closed form.
pub proof fn lemma_march_first(y: int)
    ensures
        365 * (y - 1970) + (leaps_before(y) - leaps_before(1970)) + 59 + (if is_leap(y) { 1int } else { 0int })
            == 365 * y + y / 4 - y / 100 + y / 400 - 719468,
{
}

/// The same count split into whole eras of 400 years.
pub proof fn lemma_era_base(yoe: int, era: int)
    requires
        0 <= yoe <= 399,
    ensures
        ({
            let y = yoe + 400 * era;
            365 * y + y / 4 - y / 100 + y / 400 == 146097 * era + shifted_year_start(yoe)
        }),
{
}

/// Leap years agree between the era-relative and the absolute year.
pub proof fn lemma_era_leap(yoe: int, era: int)
    requires
        0 <= yoe <= 399,
    ensures
        (shifted_year_len(yoe) == 366) == is_leap(yoe + 1 + 400 * era),
{
}

/// Converts a day number (days since 1970-01-01, negative before it; the
/// bound keeps the arithmetic within `i64` and covers every `u64` count of
/// seconds) to its calendar date (Howard Hinnant's civil-from-days).
pub fn civil_from_days(days: i64) -> (r: (i64, i64, i64))
    requires
        -1_000_000_000_000_000 <= days <= 1_000_000_000_000_000,
    ensures
        valid_date(r.0 as int, r.1 as int, r.2 as int),
        days_from_civil(r.0 as int, r.1 as int, r.2 as int) == days,
        days >= 0 ==> r.0 >= 1970,
{
    let z = days + 719468;
    // Floor division by the era length, also for days before March 1 of year 0.
    let era = if z >= 0 { z / 146097 } else { -((146096 - z) / 146097) };
    assert(era == z / 146097) by (nonlinear_arith)
        requires
            z >= 0 ==> era == z / 146097,
            z < 0 ==> era == -((146096 - z) / 146097),
    ;
    let doe = z - era * 146097;
    let yoe = (doe - doe / 1460 + doe / 36524 - doe / 146096) / 365;
    let y = yoe + era * 400;
    let doy = doe - (365 * yoe + yoe / 4 - yoe / 100);
    let mp = (5 * doy + 2) / 153;
    let d = doy - (153 * mp + 2) / 5 + 1;
    let m = if mp < 10 { mp + 3 } else { mp - 9 };
    let year = if m <= 2 { y + 1 } else { y };
    proof {
        lemma_year_of_era(doe as int);
        let len = shifted_year_len(yoe as int);
        lemma_month_of_year(doy as int, len);
        lemma_era_leap(yoe as int, era as int);
        lemma_era_base(yoe as int, era as int);
        lemma_days_before_month(year as int, m as int);
        if m <= 2 {
            lemma_march_first(y as int);
            lemma_leaps_step(y as int);
        } else {
            lemma_march_first(y as int);
        }
    }
    (year, m, d)
}

/// A valid date of year `y` falls within that year's days.
proof fn lemma_date_within_year(y: int, m: int, d: int)
    requires
        y >= 1,
        valid_date(y, m, d),
    ensures
        days_from_civil(y, 1, 1) <= days_from_civil(y, m, d) < days_from_civil(y + 1, 1, 1),
{
    lemma_days_before_month(y, m);
    lemma_days_before_month(y, 1);
    lemma_days_before_month(y + 1, 1);
    lemma_leaps_step(y);
}

/// Later years start later.
proof fn lemma_year_starts_increase(a: int, b: int)
    requires
        1 <= a <= b,
    ensures
        days_from_civil(a, 1, 1) <= days_from_civil(b, 1, 1),
    decreases b - a,
{
    if a < b {
        lemma_year_starts_increase(a, b - 1);
        lemma_leaps_step(b - 1);
        lemma_days_before_month(b - 1, 1);
        lemma_days_before_month(b, 1);
    }
}

/// Different calendar dates (from year 1 on) have different day numbers, so
/// a day number names exactly one date.
pub proof fn law_day_numbers_distinct(y1: int, m1: int, d1: int, y2: int, m2: int, d2: int)
    requires
        y1 >= 1,
        y2 >= 1,
        valid_date(y1, m1, d1),
        valid_date(y2, m2, d2),
        days_from_civil(y1, m1, d1) == days_from_civil(y2, m2, d2),
    ensures
        y1 == y2 && m1 == m2 && d1 == d2,
{
    lemma_date_within_year(y1, m1, d1);
    lemma_date_within_year(y2, m2, d2);
    if y1 < y2 {
        lemma_year_starts_increase(y1 + 1, y2);
    } else if y2 < y1 {
        lemma_year_starts_increase(y2 + 1, y1);
    }
    assert(y1 == y2);
    lemma_days_before_month(y1, m1);
    lemma_days_before_month(y1, m2);
}

/// Decimal rendering left-padded with zeros to at least `width` digits.
pub open spec fn zero_padded(n: nat, width: nat) -> Seq<char> {
    let t = nat_decimal(n);
    if t.len() < width {
        Seq::new((width - t.len()) as nat, |i: int| '0') + t
    } else {
        t
    }
}

/// The calendar date of day number `days` (the only one; see
/// [`law_day_numbers_distinct`]).
pub open spec fn spec_date_of(days: int) -> (int, int, int) {
    choose|ymd: (int, int, int)|
        ymd.0 >= 1970 && valid_date(ymd.0, ymd.1, ymd.2) && days_from_civil(ymd.0, ymd.1, ymd.2) == days
}

/// `YYYY-MM-DDTHH:MM:SSZ` for `secs` seconds after 1970-01-01T00:00:00Z
/// (the year has at least four digits).
pub open spec fn spec_rfc3339_utc(secs: u64) -> Seq<char> {
    let days = secs / 86400;
    let rem = secs % 86400;
    let date = spec_date_of(days as int);
    zero_padded(date.0 as nat, 4) + "-"@ + zero_padded(date.1 as nat, 2) + "-"@ + zero_padded(date.2 as nat, 2)
        + "T"@ + zero_padded((rem / 3600) as nat, 2) + ":"@ + zero_padded(((rem % 3600) / 60) as nat, 2) + ":"@
        + zero_padded((rem % 60) as nat, 2) + "Z"@
}

/// Appends `n` in decimal, left-padded with zeros to `width` digits.
fn append_padded(s: &mut String, n: u64, width: usize)
    ensures
        final(s)@ == old(s)@ + zero_padded(n as nat, width as nat),
{
    let t = u64_to_string(n);
    let len = t.as_str().unicode_len();
    let ghost start = s@;
    let mut i = len;
    while i < width
        invariant
            len == nat_decimal(n as nat).len(),
            len <= i <= width || (i == len && len >= width),
            s@ == start + Seq::new((i - len) as nat, |k: int| '0'),
        decreases width - i,
    {
        push_char(s, '0');
        i = i + 1;
        assert(s@ =~= start + Seq::new((i - len) as nat, |k: int| '0'));
    }
    s.append(t.as_str());
    proof {
        if len < width {
            assert(s@ =~= start + zero_padded(n as nat, width as nat));
        } else {
            assert(s@ =~= start + zero_padded(n as nat, width as nat));
        }
    }
}

/// `10` to the power `w`.
pub open spec fn pow10(w: nat) -> nat
    decreases w,
{
    if w == 0 { 1 } else { 10 * pow10((w - 1) as nat) }
}

/// A number below `10^w` has at most `w` decimal digits.
proof fn lemma_decimal_len(n: nat, w: nat)
    requires
        1 <= w,
        n < pow10(w),
    ensures
        nat_decimal(n).len() <= w,
    decreases n,
{
    if n >= 10 {
        reveal_with_fuel(pow10, 2);
        assert(w >= 2);
        let w1 = (w - 1) as nat;
        assert(pow10(w) == 10 * pow10(w1));
        let p = pow10(w1);
        assert(n / 10 < p) by (nonlinear_arith)
            requires
                n < 10 * p,
        ;
        lemma_decimal_len(n / 10, w1);
    }
}

/// Padding a number below `10^w` to `w` digits gives exactly `w` characters.
proof fn lemma_padded_len(n: nat, w: nat)
    requires
        1 <= w,
        n < pow10(w),
    ensures
        zero_padded(n, w).len() == w,
{
    lemma_decimal_len(n, w);
}

/// Seconds from 1970-01-01T00:00:00Z to 10000-01-01T00:00:00Z.
pub const YEAR_10000_SECS: u64 = 253_402_300_800;

/// Before the year 10000 a timestamp has the fixed shape
/// `YYYY-MM-DDTHH:MM:SSZ`: 20 characters with the separators in place.
proof fn lemma_rfc3339_shape(secs: u64, y: int, m: int, d: int)
    requires
        secs < YEAR_10000_SECS,
        spec_date_of((secs / 86400) as int) == (y, m, d),
        y >= 1970,
        valid_date(y, m, d),
        days_from_civil(y, m, d) == secs / 86400,
    ensures
        spec_rfc3339_utc(secs).len() == 20,
        spec_rfc3339_utc(secs)[4] == '-',
        spec_rfc3339_utc(secs)[7] == '-',
        spec_rfc3339_utc(secs)[10] == 'T',
        spec_rfc3339_utc(secs)[13] == ':',
        spec_rfc3339_utc(secs)[16] == ':',
        spec_rfc3339_utc(secs)[19] == 'Z',
{
    reveal_strlit("-");
    reveal_strlit("T");
    reveal_strlit(":");
    reveal_strlit("Z");
    reveal_with_fuel(pow10, 5);
    assert(days_from_civil(10000, 1, 1) == 2932897);
    if y >= 10000 {
        lemma_year_starts_increase(10000, y);
        lemma_date_within_year(y, m, d);
    }
    assert(y < 10000);
    let rem = secs % 86400;
    lemma_padded_len(y as nat, 4);
    lemma_padded_len(m as nat, 2);
    lemma_padded_len(d as nat, 2);
    lemma_padded_len((rem / 3600) as nat, 2);
    lemma_padded_len(((rem % 3600) / 60) as nat, 2);
    lemma_padded_len((rem % 60) as nat, 2);
    let s = spec_rfc3339_utc(secs);
    let a = zero_padded(y as nat, 4) + "-"@;
    let b = a + zero_padded(m as nat, 2) + "-"@;
    let c = b + zero_padded(d as nat, 2) + "T"@;
    let e = c + zero_padded((rem / 3600) as nat, 2) + ":"@;
    let f = e + zero_padded(((rem % 3600) / 60) as nat, 2) + ":"@;
    let g = f + zero_padded((rem % 60) as nat, 2) + "Z"@;
    assert(s == g);
    assert(a.len() == 5 && a[4] == '-');
    assert(b.len() == 8 && b[4] == '-' && b[7] == '-');
    assert(c.len() == 11 && c[4] == '-' && c[7] == '-' && c[10] == 'T');
    assert(e.len() == 14 && e[4] == '-' && e[7] == '-' && e[10] == 'T' && e[13] == ':');
    assert(f.len() == 17 && f[4] == '-' && f[7] == '-' && f[10] == 'T' && f[13] == ':' && f[16] == ':');
    assert(g.len() == 20 && g[4] == '-' && g[7] == '-' && g[10] == 'T' && g[13] == ':' && g[16] == ':' && g[19] == 'Z');
}

/// Renders a Unix time as RFC 3339 UTC, second precision (see
/// [`spec_rfc3339_utc`]); before the year 10000 the text is 20 characters,
/// `YYYY-MM-DDTHH:MM:SSZ`.
pub fn format_rfc3339_utc(secs: u64) -> (r: String)
    ensures
        r@ == spec_rfc3339_utc(secs),
        secs < YEAR_10000_SECS ==> r@.len() == 20 && r@[4] == '-' && r@[7] == '-' && r@[10] == 'T' && r@[13] == ':'
            && r@[16] == ':' && r@[19] == 'Z',
{
    let days: i64 = (secs / 86400) as i64;
    let rem: u64 = secs % 86400;
    let (year, month, day) = civil_from_days(days);
    proof {
        let date = spec_date_of(days as int);
        let witness = (year as int, month as int, day as int);
        assert(witness.0 >= 1970 && valid_date(witness.0, witness.1, witness.2)
            && days_from_civil(witness.0, witness.1, witness.2) == days);
        law_day_numbers_distinct(date.0, date.1, date.2, year as int, month as int, day as int);
        if secs < YEAR_10000_SECS {
            lemma_rfc3339_shape(secs, year as int, month as int, day as int);
        }
    }
    let mut s = String::new();
    append_padded(&mut s, year as u64, 4);
    s.append("-");
    append_padded(&mut s, month as u64, 2);
    s.append("-");
    append_padded(&mut s, day as u64, 2);
    s.append("T");
    append_padded(&mut s, rem / 3600, 2);
    s.append(":");
    append_padded(&mut s, (rem % 3600) / 60, 2);
    s.append(":");
    append_padded(&mut s, rem % 60, 2);
    s.append("Z");
    proof {
        assert(s@ =~= spec_rfc3339_utc(secs));
    }
    s
}

/// The current time as RFC 3339 UTC text (see [`spec_rfc3339_utc`]).
pub fn now_rfc3339_utc() -> (r: String)
    ensures
        exists|secs: u64| r@ == spec_rfc3339_utc(secs),
{
    format_rfc3339_utc(now_unix_secs())
}
} // verus!

//! Calendar arithmetic for HTTP `DATE` headers: the proleptic Gregorian calendar
//! counted in days from 1970-01-01, and the wall clock.
use vstd::prelude::*;
use vstd::arithmetic::div_mod::{lemma_fundamental_div_mod, lemma_fundamental_div_mod_converse};
use crate::text::{push_char, push_int, push_pad2, int_decimal, pad2};

verus! {

// ---------------------------------------------------------------------------
// The calendar.
// ---------------------------------------------------------------------------

/// Gregorian leap year.
pub open spec fn is_leap(y: int) -> bool {
    y % 4 == 0 && (y % 100 != 0 || y % 400 == 0)
}

/// Number of days in month `m` (1-based) of year `y`.
pub open spec fn days_in_month(y: int, m: int) -> int {
    if m == 2 {
        if is_leap(y) {
            29
        } else {
            28
        }
    } else if m == 4 || m == 6 || m == 9 || m == 11 {
        30
    } else {
        31
    }
}

/// Days in the months of a common year before month `m`.
pub open spec fn days_before_month_common(m: int) -> int {
    if m <= 1 {
        0
    } else if m == 2 {
        31
    } else if m == 3 {
        59
    } else if m == 4 {
        90
    } else if m == 5 {
        120
    } else if m == 6 {
        151
    } else if m == 7 {
        181
    } else if m == 8 {
        212
    } else if m == 9 {
        243
    } else if m == 10 {
        273
    } else if m == 11 {
        304
    } else {
        334
    }
}

/// Days from January 1 of year `y` to day 1 of month `m`.
pub open spec fn days_before_month(y: int, m: int) -> int {
    days_before_month_common(m) + if m > 2 && is_leap(y) {
        1int
    } else {
        0int
    }
}

/// Leap years among years `1..=y` (extended to all integers by floor division).
pub open spec fn leap_years_through(y: int) -> int {
    y / 4 - y / 100 + y / 400
}

/// Days from 1970-01-01 to January 1 of year `y` (negative before 1970).
pub open spec fn days_before_year(y: int) -> int {
    365 * (y - 1970) + leap_years_through(y - 1) - leap_years_through(1969)
}

/// Days from 1970-01-01 to the date `y-m-d`.
pub open spec fn days_from_civil(y: int, m: int, d: int) -> int {
    days_before_year(y) + days_before_month(y, m) + d - 1
}

/// `y-m-d` is a date of the calendar.
pub open spec fn valid_date(y: int, m: int, d: int) -> bool {
    1 <= m <= 12 && 1 <= d <= days_in_month(y, m)
}

// ---------------------------------------------------------------------------
// Arithmetic lemmas.
// ---------------------------------------------------------------------------

/// Adding a multiple of `d` shifts the quotient and keeps the remainder.
proof fn lemma_div_shift(a: int, k: int, d: int)
    requires
        d > 0,
    ensures
        (a + k * d) / d == a / d + k,
        (a + k * d) % d == a % d,
{
    lemma_fundamental_div_mod(a, d);
    assert(a + k * d == (a / d + k) * d + a % d) by (nonlinear_arith)
        requires
            a == d * (a / d) + a % d,
    ;
    lemma_fundamental_div_mod_converse(a + k * d, d, a / d + k, a % d);
}

/// The quotient by `d` grows by one exactly at multiples of `d`.
proof fn lemma_div_step(y: int, d: int)
    requires
        d > 0,
    ensures
        y / d - (y - 1) / d == (if y % d == 0 {
            1int
        } else {
            0int
        }),
{
    let q = (y - 1) / d;
    let r = (y - 1) % d;
    lemma_fundamental_div_mod(y - 1, d);
    assert(0 <= r < d);
    assert(y - 1 == q * d + r) by (nonlinear_arith)
        requires
            y - 1 == d * q + r,
    ;
    if r + 1 < d {
        lemma_fundamental_div_mod_converse(y, d, q, r + 1);
    } else {
        assert(y == (q + 1) * d + 0) by (nonlinear_arith)
            requires
                y - 1 == q * d + r,
                r + 1 == d,
        ;
        lemma_fundamental_div_mod_converse(y, d, q + 1, 0);
    }
}

/// A multiple of `a * b` is a multiple of `b`.
proof fn lemma_mod_multiple(y: int, a: int, b: int)
    requires
        a > 0,
        b > 0,
        y % (a * b) == 0,
    ensures
        y % b == 0,
{
    assert(a * b > 0) by (nonlinear_arith)
        requires
            a > 0,
            b > 0,
    ;
    lemma_fundamental_div_mod(y, a * b);
    let q = y / (a * b);
    assert(y == (q * a) * b + 0) by (nonlinear_arith)
        requires
            y == (a * b) * q + y % (a * b),
            y % (a * b) == 0,
    ;
    lemma_fundamental_div_mod_converse(y, b, q * a, 0);
}

/// The leap-year count grows by one exactly at leap years.
proof fn lemma_leap_step(y: int)
    ensures
        leap_years_through(y) - leap_years_through(y - 1) == (if is_leap(y) {
            1int
        } else {
            0int
        }),
{
    lemma_div_step(y, 4);
    lemma_div_step(y, 100);
    lemma_div_step(y, 400);
    if y % 400 == 0 {
        lemma_mod_multiple(y, 4, 100);
        lemma_mod_multiple(y, 100, 4);
    } else if y % 100 == 0 {
        lemma_mod_multiple(y, 25, 4);
    }
}

/// Leap years repeat every 400 years.
proof fn lemma_leap_period(a: int, e: int)
    ensures
        is_leap(a + 400 * e) == is_leap(a),
{
    lemma_div_shift(a, 100 * e, 4);
    lemma_div_shift(a, 4 * e, 100);
    lemma_div_shift(a, e, 400);
    assert(a + (100 * e) * 4 == a + 400 * e);
    assert(a + (4 * e) * 100 == a + 400 * e);
    assert(a + e * 400 == a + 400 * e);
}

/// Days from 0000-03-01 to March 1 of year `y`.
pub open spec fn march_day(y: int) -> int {
    365 * y + y / 4 - y / 100 + y / 400
}

/// A year of a 400-year era, counted from March.
proof fn lemma_march_day_era(yoe: int, era: int)
    requires
        0 <= yoe < 400,
    ensures
        march_day(yoe + 400 * era) == 146097 * era + 365 * yoe + yoe / 4 - yoe / 100,
{
    lemma_div_shift(yoe, 100 * era, 4);
    lemma_div_shift(yoe, 4 * era, 100);
    lemma_div_shift(yoe, era, 400);
    assert(yoe + (100 * era) * 4 == yoe + 400 * era);
    assert(yoe + (4 * era) * 100 == yoe + 400 * era);
    assert(yoe + era * 400 == yoe + 400 * era);
    assert(yoe / 400 == 0);
}

/// March 1 of year `y` counted from 1970-01-01.
proof fn lemma_march_day_epoch(y: int)
    ensures
        march_day(y) - 719468 == days_before_year(y) + 59 + (if is_leap(y) {
            1int
        } else {
            0int
        }),
{
    lemma_leap_step(y);
    assert(leap_years_through(1969) == 477);
}

/// The day of the year (from March 1) at which month `mp` (0 = March) starts,
/// related to the Gregorian month table.
proof fn lemma_month_start(mp: int)
    requires
        0 <= mp <= 11,
    ensures
        mp < 10 ==> (153 * mp + 2) / 5 + 59 == days_before_month_common(mp + 3),
        mp >= 10 ==> (153 * mp + 2) / 5 - 306 == days_before_month_common(mp - 9),
        mp < 9 ==> (153 * (mp + 1) + 2) / 5 - (153 * mp + 2) / 5 == days_in_month(0, mp + 3),
        mp == 9 ==> (153 * (mp + 1) + 2) / 5 - (153 * mp + 2) / 5 == 31,
        mp == 10 ==> (153 * (mp + 1) + 2) / 5 - (153 * mp + 2) / 5 == 31,
        mp == 11 ==> (153 * mp + 2) / 5 == 337,
{
    if mp == 0 {
    } else if mp == 1 {
    } else if mp == 2 {
    } else if mp == 3 {
    } else if mp == 4 {
    } else if mp == 5 {
    } else if mp == 6 {
    } else if mp == 7 {
    } else if mp == 8 {
    } else if mp == 9 {
    } else if mp == 10 {
    } else {
    }
}

/// Year-of-era and day-of-year decomposition of a day of a 400-year era.
proof fn lemma_year_of_era(doe: u32)
    requires
        doe < 146097,
    ensures
        ({
            let yoe = (doe - doe / 1460 + doe / 36524 - doe / 146096) / 365;
            let base = 365 * yoe + yoe / 4 - yoe / 100;
            let leap: u32 = if (yoe + 1) % 4 == 0 && ((yoe + 1) % 100 != 0 || yoe == 399) {
                1
            } else {
                0
            };
            &&& yoe <= 399
            &&& base <= doe
            &&& doe - base < 365 + leap
        }),
{
    assert({
        let yoe = (doe - doe / 1460 + doe / 36524 - doe / 146096) / 365;
        let base = 365 * yoe + yoe / 4 - yoe / 100;
        let leap: u32 = if (yoe + 1) % 4 == 0 && ((yoe + 1) % 100 != 0 || yoe == 399) {
            1
        } else {
            0
        };
        &&& yoe <= 399
        &&& base <= doe
        &&& doe - base < 365 + leap
    }) by (bit_vector)
        requires
            doe < 146097,
    ;
}

/// Month decomposition of a day of a March-based year.
proof fn lemma_month_of_year(doy: u32)
    requires
        doy < 366,
    ensures
        ({
            let mp = (5 * doy + 2) / 153;
            let start = (153 * mp + 2) / 5;
            &&& mp <= 11
            &&& start <= doy
            &&& (mp < 11 ==> doy < (153 * (mp + 1) + 2) / 5)
        }),
{
    assert({
        let mp = (5 * doy + 2) / 153;
        let start = (153 * mp + 2) / 5;
        &&& mp <= 11
        &&& start <= doy
        &&& (mp < 11 ==> doy < (153 * (mp + 1) + 2) / 5)
    }) by (bit_vector)
        requires
            doy < 366,
    ;
}

// ---------------------------------------------------------------------------
// Executable calendar functions.
// ---------------------------------------------------------------------------

/// Floor division by the era length, from the truncating division used in
/// `civil_from_days`.
proof fn lemma_era(z1: int, era: int)
    requires
        era == (if z1 >= 0 {
            z1 / 146097
        } else {
            -((146096 - z1) / 146097)
        }),
    ensures
        era == z1 / 146097,
{
    if z1 < 0 {
        let n = 146096 - z1;
        let e = z1 / 146097;
        lemma_fundamental_div_mod(n, 146097);
        lemma_fundamental_div_mod(z1, 146097);
        assert(era == e) by (nonlinear_arith)
            requires
                z1 < 0,
                n == 146096 - z1,
                era == -(n / 146097),
                n == 146097 * (n / 146097) + n % 146097,
                0 <= n % 146097 < 146097,
                z1 == 146097 * e + z1 % 146097,
                0 <= z1 % 146097 < 146097,
        ;
    }
}

/// The decomposition computed by `civil_from_days` denotes day `z`.
proof fn lemma_civil(z: int, era: int, doe: int, yoe: int, doy: int, mp: int, d: int, m: int)
    requires
        z + 719468 == 146097 * era + doe,
        0 <= doe < 146097,
        yoe == (doe - doe / 1460 + doe / 36524 - doe / 146096) / 365,
        doy == doe - (365 * yoe + yoe / 4 - yoe / 100),
        mp == (5 * doy + 2) / 153,
        d == doy - (153 * mp + 2) / 5 + 1,
        m == (if mp < 10 {
            mp + 3
        } else {
            mp - 9
        }),
    ensures
        0 <= yoe <= 399,
        0 <= doy < 366,
        0 <= mp <= 11,
        ({
            let y = yoe + 400 * era;
            let year = if m <= 2 {
                y + 1
            } else {
                y
            };
            valid_date(year, m, d) && days_from_civil(year, m, d) == z
        }),
{
    lemma_year_of_era(doe as u32);
    assert(0 <= yoe <= 399);
    assert(0 <= doy < 366);
    lemma_month_of_year(doy as u32);
    lemma_month_start(mp);
    lemma_march_day_era(yoe, era);
    let ym = yoe + 400 * era;
    lemma_march_day_epoch(ym);
    assert(march_day(ym) - 719468 + doy == z);
    if mp < 10 {
        assert(days_from_civil(ym, m, d) == z);
        if m != 2 {
            assert(days_in_month(ym, m) == days_in_month(0, m));
        }
    } else {
        lemma_leap_step(ym + 1);
        assert(days_before_year(ym + 1) == days_before_year(ym) + 365 + (if is_leap(ym) {
            1int
        } else {
            0int
        })) by {
            lemma_march_day_epoch(ym + 1);
            lemma_leap_step(ym);
        }
        assert(days_from_civil(ym + 1, m, d) == z);
        lemma_leap_period(yoe + 1, era);
    }
}

/// The date `(year, month, day)` of the day `z` counted from 1970-01-01
/// (Howard Hinnant's `civil_from_days`).
pub fn civil_from_days(z: i64) -> (r: (i64, u32, u32))
    requires
        z <= i64::MAX - 719468,
    ensures
        valid_date(r.0 as int, r.1 as int, r.2 as int),
        days_from_civil(r.0 as int, r.1 as int, r.2 as int) == z as int,
{
    let z1 = z + 719468;
    let num = if z1 >= 0 { z1 } else { z1 - 146096 };
    let era: i64 = num / 146097;
    proof {
        if z1 < 0 {
            assert(era as int == -((146096 - z1 as int) / 146097));
        }
        lemma_era(z1 as int, era as int);
        lemma_fundamental_div_mod(z1 as int, 146097);
    }
    let doe: u64 = (z1 - era * 146097) as u64;
    proof {
        lemma_year_of_era(doe as u32);
    }
    let yoe: u64 = (doe - doe / 1460 + doe / 36524 - doe / 146096) / 365;
    let y: i64 = yoe as i64 + era * 400;
    let doy: u64 = doe - (365 * yoe + yoe / 4 - yoe / 100);
    proof {
        lemma_month_of_year(doy as u32);
    }
    let mp: u64 = (5 * doy + 2) / 153;
    let d: u32 = (doy - (153 * mp + 2) / 5 + 1) as u32;
    let m: u32 = if mp < 10 { (mp + 3) as u32 } else { (mp - 9) as u32 };
    let year = if m <= 2 { y + 1 } else { y };
    proof {
        lemma_civil(z as int, era as int, doe as int, yoe as int, doy as int, mp as int, d as int, m as int);
    }
    (year, m, d)
}

/// Days before and after 1970-01-01 are told apart by `days_before_year`.
proof fn lemma_days_before_year_step(y: int)
    ensures
        days_before_year(y + 1) == days_before_year(y) + 365 + (if is_leap(y) {
            1int
        } else {
            0int
        }),
{
    lemma_leap_step(y);
}

proof fn lemma_days_before_year_monotone(a: int, b: int)
    requires
        a < b,
    ensures
        days_before_year(a) + 365 <= days_before_year(b),
    decreases b - a,
{
    lemma_days_before_year_step(a);
    if a + 1 < b {
        lemma_days_before_year_monotone(a + 1, b);
    }
}

/// The day of a valid date lies within its year.
proof fn lemma_within_year(y: int, m: int, d: int)
    requires
        valid_date(y, m, d),
    ensures
        days_before_year(y) <= days_from_civil(y, m, d) < days_before_year(y + 1),
        days_before_month(y, m) <= days_from_civil(y, m, d) - days_before_year(y) < days_before_month(y, m) + days_in_month(y, m),
{
    lemma_days_before_year_step(y);
}

/// The day after `y-m-d`.
pub open spec fn next_date(y: int, m: int, d: int) -> (int, int, int) {
    if d < days_in_month(y, m) {
        (y, m, d + 1)
    } else if m < 12 {
        (y, m + 1, 1)
    } else {
        (y + 1, 1, 1)
    }
}

/// The day after a valid date is a valid date whose day number is one more,
/// and it is the only valid date with that number: so the date of day `z + 1`
/// follows from the date of day `z`.
pub proof fn law_civil_successor(y: int, m: int, d: int, y2: int, m2: int, d2: int)
    requires
        valid_date(y, m, d),
    ensures
        valid_date(next_date(y, m, d).0, next_date(y, m, d).1, next_date(y, m, d).2),
        days_from_civil(next_date(y, m, d).0, next_date(y, m, d).1, next_date(y, m, d).2)
            == days_from_civil(y, m, d) + 1,
        valid_date(y2, m2, d2) && days_from_civil(y2, m2, d2) == days_from_civil(y, m, d) + 1
            ==> (y2, m2, d2) == next_date(y, m, d),
{
    let n = next_date(y, m, d);
    if d < days_in_month(y, m) {
    } else if m < 12 {
        assert(days_before_month(y, m + 1) == days_before_month(y, m) + days_in_month(y, m)) by {
            if m == 1 {
            } else if m == 2 {
            } else if m == 3 {
            } else if m == 4 {
            } else if m == 5 {
            } else if m == 6 {
            } else if m == 7 {
            } else if m == 8 {
            } else if m == 9 {
            } else if m == 10 {
            } else {
            }
        }
    } else {
        lemma_days_before_year_step(y);
    }
    if valid_date(y2, m2, d2) && days_from_civil(y2, m2, d2) == days_from_civil(y, m, d) + 1 {
        lemma_civil_unique(y2, m2, d2, n.0, n.1, n.2);
    }
}

/// A day number names at most one valid date.
pub proof fn lemma_civil_unique(y1: int, m1: int, d1: int, y2: int, m2: int, d2: int)
    requires
        valid_date(y1, m1, d1),
        valid_date(y2, m2, d2),
        days_from_civil(y1, m1, d1) == days_from_civil(y2, m2, d2),
    ensures
        y1 == y2 && m1 == m2 && d1 == d2,
{
    lemma_within_year(y1, m1, d1);
    lemma_within_year(y2, m2, d2);
    if y1 < y2 {
        lemma_days_before_year_monotone(y1 + 1, y2 + 1);
        if y1 + 1 < y2 {
            lemma_days_before_year_monotone(y1 + 1, y2);
        }
    } else if y2 < y1 {
        if y2 + 1 < y1 {
            lemma_days_before_year_monotone(y2 + 1, y1);
        }
    }
    assert(y1 == y2);
    if m1 < m2 {
        assert(days_before_month(y1, m1) + days_in_month(y1, m1) <= days_before_month(y1, m2));
    } else if m2 < m1 {
        assert(days_before_month(y1, m2) + days_in_month(y1, m2) <= days_before_month(y1, m1));
    }
}

/// The date of day `z` counted from 1970-01-01.
pub open spec fn civil_of(z: int) -> (int, int, int) {
    choose|t: (int, int, int)| valid_date(t.0, t.1, t.2) && days_from_civil(t.0, t.1, t.2) == z
}

/// English three-letter weekday name, 0 = Sunday.
pub open spec fn weekday_name(w: int) -> Seq<char> {
    if w == 0 {
        "Sun"@
    } else if w == 1 {
        "Mon"@
    } else if w == 2 {
        "Tue"@
    } else if w == 3 {
        "Wed"@
    } else if w == 4 {
        "Thu"@
    } else if w == 5 {
        "Fri"@
    } else {
        "Sat"@
    }
}

/// English three-letter month name, 1 = January.
pub open spec fn month_name(m: int) -> Seq<char> {
    if m == 1 {
        "Jan"@
    } else if m == 2 {
        "Feb"@
    } else if m == 3 {
        "Mar"@
    } else if m == 4 {
        "Apr"@
    } else if m == 5 {
        "May"@
    } else if m == 6 {
        "Jun"@
    } else if m == 7 {
        "Jul"@
    } else if m == 8 {
        "Aug"@
    } else if m == 9 {
        "Sep"@
    } else if m == 10 {
        "Oct"@
    } else if m == 11 {
        "Nov"@
    } else {
        "Dec"@
    }
}

/// The RFC 1123 date of `secs` seconds after 1970-01-01 00:00:00 UTC, e.g.
/// `Thu, 01 Jan 1970 00:00:00 GMT` (1970-01-01 was a Thursday).
pub open spec fn http_date_text(secs: int) -> Seq<char> {
    let days = secs / 86400;
    let c = civil_of(days);
    weekday_name((days + 4) % 7) + ", "@ + pad2(c.2 as nat) + " "@ + month_name(c.1) + " "@
        + int_decimal(c.0) + " "@ + pad2((secs % 86400 / 3600) as nat) + ":"@ + pad2(
        (secs % 3600 / 60) as nat,
    ) + ":"@ + pad2((secs % 60) as nat) + " GMT"@
}

/// Floor division (`i64::div_euclid` for a positive divisor).
pub fn div_floor(a: i64, b: i64) -> (r: i64)
    requires
        b > 0,
    ensures
        r as int == a as int / b as int,
{
    let q = a / b;
    let m = a % b;
    let ghost ai = a as int;
    let ghost bi = b as int;
    let ghost e = ai / bi;
    proof {
        lemma_fundamental_div_mod(ai, bi);
        if a < 0 {
            let n = -ai;
            lemma_fundamental_div_mod(n, bi);
            assert(q as int == -(n / bi));
            assert(m as int == -(n % bi));
            if m < 0 {
                assert(q - 1 == e) by (nonlinear_arith)
                    requires
                        n == -ai,
                        q as int == -(n / bi),
                        m as int == -(n % bi),
                        m < 0,
                        bi > 0,
                        n == bi * (n / bi) + n % bi,
                        0 <= n % bi < bi,
                        ai == bi * e + ai % bi,
                        0 <= ai % bi < bi,
                ;
            } else {
                assert(q == e) by (nonlinear_arith)
                    requires
                        n == -ai,
                        q as int == -(n / bi),
                        m as int == -(n % bi),
                        m >= 0,
                        bi > 0,
                        n == bi * (n / bi) + n % bi,
                        0 <= n % bi < bi,
                        ai == bi * e + ai % bi,
                        0 <= ai % bi < bi,
                ;
            }
        }
    }
    if m < 0 {
        proof {
            assert(e >= ai) by (nonlinear_arith)
                requires
                    ai < 0,
                    bi >= 1,
                    ai == bi * e + ai % bi,
                    0 <= ai % bi < bi,
            ;
        }
        q - 1
    } else {
        q
    }
}

/// Floor remainder (`i64::rem_euclid` for a positive divisor).
pub fn rem_floor(a: i64, b: i64) -> (r: i64)
    requires
        b > 0,
    ensures
        r as int == a as int % b as int,
        0 <= r < b,
{
    let q = div_floor(a, b);
    let ghost ai = a as int;
    let ghost bi = b as int;
    proof {
        lemma_fundamental_div_mod(ai, bi);
        assert(bi * q == ai - ai % bi);
        assert(q * bi == ai - ai % bi) by (nonlinear_arith)
            requires
                bi * q == ai - ai % bi,
        ;
    }
    let r: i128 = (a as i128) - (q as i128) * (b as i128);
    r as i64
}

fn weekday_abbr(w: i64) -> (r: &'static str)
    ensures
        r@ == weekday_name(w as int),
{
    if w == 0 {
        "Sun"
    } else if w == 1 {
        "Mon"
    } else if w == 2 {
        "Tue"
    } else if w == 3 {
        "Wed"
    } else if w == 4 {
        "Thu"
    } else if w == 5 {
        "Fri"
    } else {
        "Sat"
    }
}

fn month_abbr(m: u32) -> (r: &'static str)
    ensures
        r@ == month_name(m as int),
{
    if m == 1 {
        "Jan"
    } else if m == 2 {
        "Feb"
    } else if m == 3 {
        "Mar"
    } else if m == 4 {
        "Apr"
    } else if m == 5 {
        "May"
    } else if m == 6 {
        "Jun"
    } else if m == 7 {
        "Jul"
    } else if m == 8 {
        "Aug"
    } else if m == 9 {
        "Sep"
    } else if m == 10 {
        "Oct"
    } else if m == 11 {
        "Nov"
    } else {
        "Dec"
    }
}

/// The RFC 1123 `DATE` header value for `secs` seconds since the Unix epoch.
pub fn http_date_at(secs: i64) -> (r: String)
    ensures
        r@ == http_date_text(secs as int),
{
    let days = div_floor(secs, 86400);
    let wday = rem_floor(days + 4, 7);
    let (y, m, d) = civil_from_days(days);
    let h = rem_floor(secs, 86400) / 3600;
    let mi = rem_floor(secs, 3600) / 60;
    let s = rem_floor(secs, 60);
    proof {
        let c = civil_of(days as int);
        assert(valid_date(y as int, m as int, d as int) && days_from_civil(y as int, m as int, d as int) == days as int);
        assert(valid_date(c.0, c.1, c.2) && days_from_civil(c.0, c.1, c.2) == days as int);
        lemma_civil_unique(y as int, m as int, d as int, c.0, c.1, c.2);
    }
    let mut out = String::new();
    out.append(weekday_abbr(wday));
    out.append(", ");
    push_pad2(&mut out, d as u64);
    out.append(" ");
    out.append(month_abbr(m));
    out.append(" ");
    push_int(&mut out, y);
    out.append(" ");
    push_pad2(&mut out, h as u64);
    push_char(&mut out, ':');
    push_pad2(&mut out, mi as u64);
    push_char(&mut out, ':');
    push_pad2(&mut out, s as u64);
    out.append(" GMT");
    proof {
        reveal_strlit(":");
    }
    out
}

/// The system clock's reading type.
#[verifier::external_type_specification]
#[verifier::external_body]
pub struct ExSystemTime(std::time::SystemTime);

/// The error of a clock reading taken before a given time.
#[verifier::external_type_specification]
#[verifier::external_body]
pub struct ExSystemTimeError(std::time::SystemTimeError);

/// Calls `SystemTime::now`: the current reading of the clock, of which nothing
/// is stated.
#[verifier::external_body]
fn system_now() -> std::time::SystemTime {
    std::time::SystemTime::now()
}

/// Calls `SystemTime::duration_since` with `UNIX_EPOCH`: the time since the
/// epoch, or an error for a reading before it. Nothing is stated of which: it
/// depends on the reading.
#[verifier::external_body]
fn since_unix_epoch(t: &std::time::SystemTime) -> Result<
    std::time::Duration,
    std::time::SystemTimeError,
> {
    t.duration_since(std::time::UNIX_EPOCH)
}

/// Calls `Duration::as_secs`: the whole seconds of a duration, which is opaque
/// here, so nothing is stated of the number.
#[verifier::external_body]
fn duration_secs(d: &std::time::Duration) -> u64 {
    d.as_secs()
}

/// The clock's reading as whole seconds since the Unix epoch (`None` for a
/// clock set before the epoch).
fn unix_time_secs() -> Option<u64> {
    let t = system_now();
    match since_unix_epoch(&t) {
        Ok(d) => Some(duration_secs(&d)),
        Err(_) => None,
    }
}

/// A clock reading as a signed timestamp: the seconds, or 0 for a clock before
/// the epoch.
pub fn timestamp_from(t: Option<u64>) -> (r: i64)
    ensures
        r == (match t {
            Some(s) => s as i64,
            None => 0i64,
        }),
{
    match t {
        Some(s) => s as i64,
        None => 0,
    }
}

/// The current Unix time in seconds (0 if the clock reads before the epoch).
pub fn now() -> i64 {
    timestamp_from(unix_time_secs())
}

/// The current time as an RFC 1123 `DATE` header value: the date text of some
/// instant (the one the clock reads).
pub fn http_date() -> (r: String)
    ensures
        exists|secs: i64| r@ == #[trigger] http_date_text(secs as int),
{
    let secs = now();
    let r = http_date_at(secs);
    assert(r@ == http_date_text(secs as int));
    r
}

} // verus!

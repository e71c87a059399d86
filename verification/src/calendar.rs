//! Civil (proleptic Gregorian) dates of day counts since the Unix epoch.
use vstd::prelude::*;

verus! {

/// A leap year of the Gregorian calendar.
pub open spec fn is_leap_year(y: int) -> bool {
    y % 4 == 0 && (y % 100 != 0 || y % 400 == 0)
}

/// The number of days of month `m` (1 to 12) in year `y`.
pub open spec fn days_in_month(y: int, m: int) -> int {
    if m == 2 {
        if is_leap_year(y) {
            29
        } else {
            28
        }
    } else if m == 4 || m == 6 || m == 9 || m == 11 {
        30
    } else {
        31
    }
}

/// The days of year `y` before the first of month `m` (1 to 12).
pub open spec fn days_before_month(y: int, m: int) -> int {
    let common: int = if m == 1 {
        0
    } else if m == 2 {
        31
    } else if m == 3 {
        59
    } else if m == 4 {
        90
    } else if m == 5 {
        120
    } else if m == 6 {
        151
    } else if m == 7 {
        181
    } else if m == 8 {
        212
    } else if m == 9 {
        243
    } else if m == 10 {
        273
    } else if m == 11 {
        304
    } else {
        334
    };
    common + if m > 2 && is_leap_year(y) {
        1int
    } else {
        0int
    }
}

/// The number of leap days in the years before year `y`, counted from a
/// fixed origin (so differences between years are exact).
pub open spec fn leap_days_before(y: int) -> int {
    (y - 1) / 4 - (y - 1) / 100 + (y - 1) / 400
}

/// The number of days from 1970-01-01 to the date `y`-`m`-`d`.
pub open spec fn days_from_civil(y: int, m: int, d: int) -> int {
    365 * (y - 1970) + leap_days_before(y) - leap_days_before(1970) + days_before_month(y, m) + d
        - 1
}

/// A valid date.
pub open spec fn is_valid_date(y: int, m: int, d: int) -> bool {
    1 <= m <= 12 && 1 <= d <= days_in_month(y, m)
}

/// The days from March 1 to the first of the month `mp` months later.
spec fn march_month_start(mp: int) -> int {
    if mp == 0 {
        0
    } else if mp == 1 {
        31
    } else if mp == 2 {
        61
    } else if mp == 3 {
        92
    } else if mp == 4 {
        122
    } else if mp == 5 {
        153
    } else if mp == 6 {
        184
    } else if mp == 7 {
        214
    } else if mp == 8 {
        245
    } else if mp == 9 {
        275
    } else if mp == 10 {
        306
    } else if mp == 11 {
        337
    } else {
        366
    }
}

proof fn lemma_year_of_era(doe: u32)
    requires
        doe < 146097,
    ensures
        ({
            let yoe = (doe - doe / 1460 + doe / 36524 - doe / 146096) / 365;
            let base = 365 * yoe + yoe / 4 - yoe / 100;
            &&& yoe < 400
            &&& base <= doe
            &&& doe - base < 365 + (if (yoe + 1) % 4 == 0 && ((yoe + 1) % 100 != 0 || (yoe + 1)
                % 400 == 0) {
                1u32
            } else {
                0u32
            })
        }),
{
    assert({
        let yoe = (doe - doe / 1460 + doe / 36524 - doe / 146096) / 365;
        let base = 365 * yoe + yoe / 4 - yoe / 100;
        &&& yoe < 400
        &&& base <= doe
        &&& doe - base < 365 + (if (yoe + 1) % 4 == 0 && ((yoe + 1) % 100 != 0 || (yoe + 1) % 400
            == 0) {
            1u32
        } else {
            0u32
        })
    }) by (bit_vector)
        requires
            doe < 146097,
    ;
}

proof fn lemma_month_of_year(doy: u32)
    requires
        doy < 366,
    ensures
        ({
            let mp = (5 * doy + 2) / 153;
            let start = (153 * mp + 2) / 5;
            &&& mp < 12
            &&& start == march_month_start(mp as int)
            &&& start <= doy
            &&& doy < march_month_start(mp + 1)
        }),
{
    assert({
        let mp = (5 * doy + 2) / 153;
        let start = (153 * mp + 2) / 5;
        &&& mp < 12
        &&& start <= doy
        &&& (mp == 0 ==> start == 0 && doy < 31)
        &&& (mp == 1 ==> start == 31 && doy < 61)
        &&& (mp == 2 ==> start == 61 && doy < 92)
        &&& (mp == 3 ==> start == 92 && doy < 122)
        &&& (mp == 4 ==> start == 122 && doy < 153)
        &&& (mp == 5 ==> start == 153 && doy < 184)
        &&& (mp == 6 ==> start == 184 && doy < 214)
        &&& (mp == 7 ==> start == 214 && doy < 245)
        &&& (mp == 8 ==> start == 245 && doy < 275)
        &&& (mp == 9 ==> start == 275 && doy < 306)
        &&& (mp == 10 ==> start == 306 && doy < 337)
        &&& (mp == 11 ==> start == 337 && doy < 366)
    }) by (bit_vector)
        requires
            doy < 366,
    ;
}

proof fn lemma_era_shift(e: int, k: int)
    requires
        0 <= k < 400,
    ensures
        (400 * e + k) / 4 == 100 * e + k / 4,
        (400 * e + k) / 100 == 4 * e + k / 100,
        (400 * e + k) / 400 == e + k / 400,
        (400 * e + k) % 4 == k % 4,
        (400 * e + k) % 100 == k % 100,
        (400 * e + k) % 400 == k % 400,
{
    vstd::arithmetic::div_mod::lemma_fundamental_div_mod_converse(400 * e + k, 4, 100 * e + k / 4, k % 4);
    vstd::arithmetic::div_mod::lemma_fundamental_div_mod_converse(400 * e + k, 100, 4 * e + k / 100, k % 100);
    vstd::arithmetic::div_mod::lemma_fundamental_div_mod_converse(400 * e + k, 400, e + k / 400, k % 400);
}

proof fn lemma_civil(era: int, yoe: int, doy: int, mp: int, d: int)
    requires
        0 <= yoe < 400,
        0 <= mp < 12,
        0 <= doy,
        doy < 365 + if is_leap_year(yoe + 1) {
            1int
        } else {
            0int
        },
        march_month_start(mp) <= doy < march_month_start(mp + 1),
        d == doy - march_month_start(mp) + 1,
    ensures
        ({
            let m = if mp < 10 {
                mp + 3
            } else {
                mp - 9
            };
            let y = if m <= 2 {
                era * 400 + yoe + 1
            } else {
                era * 400 + yoe
            };
            &&& is_valid_date(y, m, d)
            &&& days_from_civil(y, m, d) == era * 146097 + 365 * yoe + yoe / 4 - yoe / 100 + doy
                - 719468
        }),
{
    let m = if mp < 10 {
        mp + 3
    } else {
        mp - 9
    };
    let y0 = era * 400 + yoe;
    lemma_era_shift(era, yoe);
    if yoe + 1 < 400 {
        lemma_era_shift(era, yoe + 1);
        assert(y0 + 1 == 400 * era + (yoe + 1));
    } else {
        lemma_era_shift(era + 1, 0);
        assert(y0 + 1 == 400 * (era + 1) + 0);
    }
    assert(is_leap_year(y0 + 1) == is_leap_year(yoe + 1));
    assert(leap_days_before(y0 + 1) == 97 * era + yoe / 4 - yoe / 100);
    assert(leap_days_before(1970) == 477);
    if mp < 10 {
        assert(leap_days_before(y0 + 1) == leap_days_before(y0) + if is_leap_year(y0) {
            1int
        } else {
            0int
        }) by {
            assert(y0 == 400 * era + yoe);
            if yoe == 0 {
                lemma_era_shift(era - 1, 399);
                assert(y0 - 1 == 400 * (era - 1) + 399);
            } else {
                lemma_era_shift(era, yoe - 1);
                assert(y0 - 1 == 400 * era + (yoe - 1));
            }
        }
        assert(days_before_month(y0, m) == march_month_start(mp) + 59 + if is_leap_year(y0) {
            1int
        } else {
            0int
        });
        assert(365 * (y0 - 1970) == 146000 * era + 365 * yoe - 719050) by (nonlinear_arith)
            requires
                y0 == era * 400 + yoe,
        ;
    } else {
        assert(365 * (y0 + 1 - 1970) == 146000 * era + 365 * yoe - 718685) by (nonlinear_arith)
            requires
                y0 == era * 400 + yoe,
        ;
    }
}

/// The date `days` days after 1970-01-01, as (year, month, day).
pub fn epoch_days_to_ymd(days: i64) -> (r: (i64, i64, i64))
    requires
        days <= i64::MAX - 719468,
    ensures
        is_valid_date(r.0 as int, r.1 as int, r.2 as int),
        days_from_civil(r.0 as int, r.1 as int, r.2 as int) == days,
{
    // Civil calendar algorithm from Howard Hinnant: count from 0000-03-01 in
    // 400-year eras of 146097 days, with March-based years.
    let z = days + 719468;
    let era = if z >= 0 {
        z
    } else {
        z - 146096
    } / 146097;
    assert(era == z as int / 146097);
    assert(0 <= z - era * 146097 < 146097) by (nonlinear_arith)
        requires
            era == z as int / 146097,
    ;
    let doe = z - era * 146097;
    proof {
        lemma_year_of_era(doe as u32);
    }
    let yoe = (doe - doe / 1460 + doe / 36524 - doe / 146096) / 365;
    let y = yoe + era * 400;
    let doy = doe - (365 * yoe + yoe / 4 - yoe / 100);
    proof {
        lemma_month_of_year(doy as u32);
    }
    let mp = (5 * doy + 2) / 153;
    let d = doy - (153 * mp + 2) / 5 + 1;
    let m = if mp < 10 {
        mp + 3
    } else {
        mp - 9
    };
    let y = if m <= 2 {
        y + 1
    } else {
        y
    };
    proof {
        lemma_civil(era as int, yoe as int, doy as int, mp as int, d as int);
    }
    (y, m, d)
}

// ---------------------------------------------------------------------------
// Laws of the calendar
// ---------------------------------------------------------------------------

/// The day after `y`-`m`-`d`.
pub open spec fn next_day(y: int, m: int, d: int) -> (int, int, int) {
    if d < days_in_month(y, m) {
        (y, m, d + 1)
    } else if m < 12 {
        (y, m + 1, 1)
    } else {
        (y + 1, 1, 1)
    }
}

/// The day count of the first of January of year `y`.
pub open spec fn year_start(y: int) -> int {
    days_from_civil(y, 1, 1)
}

/// The number of days of year `y`.
pub open spec fn days_in_year(y: int) -> int {
    if is_leap_year(y) {
        366
    } else {
        365
    }
}

proof fn lemma_leap_step(y: int)
    ensures
        leap_days_before(y + 1) - leap_days_before(y) == if is_leap_year(y) {
            1int
        } else {
            0int
        },
{
    assert((y / 4 - (y - 1) / 4) == if y % 4 == 0 { 1int } else { 0int }) by (nonlinear_arith);
    assert((y / 100 - (y - 1) / 100) == if y % 100 == 0 { 1int } else { 0int }) by (nonlinear_arith);
    assert((y / 400 - (y - 1) / 400) == if y % 400 == 0 { 1int } else { 0int }) by (nonlinear_arith);
    assert(y % 100 == 0 ==> y % 4 == 0) by (nonlinear_arith);
    assert(y % 400 == 0 ==> y % 100 == 0) by (nonlinear_arith);
}

proof fn lemma_year_length(y: int)
    ensures
        year_start(y + 1) == year_start(y) + days_in_year(y),
{
    lemma_leap_step(y);
}

proof fn lemma_year_start_order(y1: int, y2: int)
    requires
        y1 < y2,
    ensures
        year_start(y1) + days_in_year(y1) <= year_start(y2),
    decreases y2 - y1,
{
    lemma_year_length(y1);
    if y1 + 1 < y2 {
        lemma_year_start_order(y1 + 1, y2);
        lemma_year_length(y1 + 1);
    }
}

proof fn lemma_day_in_year(y: int, m: int, d: int)
    requires
        is_valid_date(y, m, d),
    ensures
        year_start(y) <= days_from_civil(y, m, d) < year_start(y) + days_in_year(y),
{
}

proof fn lemma_month_order(y: int, m1: int, d1: int, m2: int, d2: int)
    requires
        is_valid_date(y, m1, d1),
        is_valid_date(y, m2, d2),
        m1 < m2,
    ensures
        days_from_civil(y, m1, d1) < days_from_civil(y, m2, d2),
{
}

/// Each day count names one date: two valid dates with the same count since
/// 1970-01-01 are the same date.
pub proof fn law_day_count_unique(y1: int, m1: int, d1: int, y2: int, m2: int, d2: int)
    requires
        is_valid_date(y1, m1, d1),
        is_valid_date(y2, m2, d2),
        days_from_civil(y1, m1, d1) == days_from_civil(y2, m2, d2),
    ensures
        y1 == y2 && m1 == m2 && d1 == d2,
{
    lemma_day_in_year(y1, m1, d1);
    lemma_day_in_year(y2, m2, d2);
    if y1 < y2 {
        lemma_year_start_order(y1, y2);
    } else if y2 < y1 {
        lemma_year_start_order(y2, y1);
    } else if m1 < m2 {
        lemma_month_order(y1, m1, d1, m2, d2);
    } else if m2 < m1 {
        lemma_month_order(y1, m2, d2, m1, d1);
    }
}

/// The day after a valid date is a valid date, one day count later.
pub proof fn law_next_day(y: int, m: int, d: int)
    requires
        is_valid_date(y, m, d),
    ensures
        ({
            let (y2, m2, d2) = next_day(y, m, d);
            is_valid_date(y2, m2, d2) && days_from_civil(y2, m2, d2) == days_from_civil(y, m, d) + 1
        }),
{
    if d == days_in_month(y, m) && m == 12 {
        lemma_year_length(y);
    }
}

/// Day 0 is 1970-01-01.
pub proof fn law_epoch_is_1970_01_01()
    ensures
        is_valid_date(1970, 1, 1),
        days_from_civil(1970, 1, 1) == 0,
{
}

/// Consecutive day counts name consecutive dates: the date of `days + 1` is
/// the day after the date of `days` (the dates that `epoch_days_to_ymd`
/// returns for the two counts).
pub proof fn law_consecutive_days(days: int, a: (int, int, int), b: (int, int, int))
    requires
        is_valid_date(a.0, a.1, a.2),
        days_from_civil(a.0, a.1, a.2) == days,
        is_valid_date(b.0, b.1, b.2),
        days_from_civil(b.0, b.1, b.2) == days + 1,
    ensures
        b == next_day(a.0, a.1, a.2),
{
    law_next_day(a.0, a.1, a.2);
    let n = next_day(a.0, a.1, a.2);
    law_day_count_unique(b.0, b.1, b.2, n.0, n.1, n.2);
}

} // verus!

//! Calendar arithmetic for Gantt dates: proleptic Gregorian dates and the
//! number of days since 1970-01-01.

use vstd::prelude::*;

verus! {

/// Whether `year` is a Gregorian leap year.
pub open spec fn spec_is_leap(year: int) -> bool {
    (year % 4 == 0 && year % 100 != 0) || year % 400 == 0
}

/// Number of days in `month` of `year`; zero for a month outside 1..=12.
pub open spec fn spec_days_in_month(year: int, month: int) -> int {
    if month == 1 || month == 3 || month == 5 || month == 7 || month == 8 || month == 10 || month == 12 {
        31
    } else if month == 4 || month == 6 || month == 9 || month == 11 {
        30
    } else if month == 2 {
        if spec_is_leap(year) { 29 } else { 28 }
    } else {
        0
    }
}

/// A real calendar date.
pub open spec fn spec_valid_date(year: int, month: int, day: int) -> bool {
    1 <= month <= 12 && 1 <= day <= spec_days_in_month(year, month)
}

/// Year counted from March: January and February belong to the year before.
pub open spec fn march_year(year: int, month: int) -> int {
    if month <= 2 { year - 1 } else { year }
}

/// Month counted from March = 0 to February = 11.
pub open spec fn march_month(month: int) -> int {
    if month > 2 { month - 3 } else { month + 9 }
}

/// Days from 0000-03-01 to the first of March of March-year `y`.
pub open spec fn days_before_march_year(y: int) -> int {
    365 * y + y / 4 - y / 100 + y / 400
}

/// Day of the March-based year on which March-month `mm` starts.
pub open spec fn march_month_start(mm: int) -> int {
    (153 * mm + 2) / 5
}

/// Days between 1970-01-01 and the given date (negative before it).
pub open spec fn spec_day_number(year: int, month: int, day: int) -> int {
    days_before_march_year(march_year(year, month)) + march_month_start(march_month(month)) + day - 1
        - 719468
}

/// Smallest and largest day numbers whose date has a year that fits in `i32`.
pub open spec fn min_day_number() -> int {
    spec_day_number(i32::MIN as int, 1, 1)
}

pub open spec fn max_day_number() -> int {
    spec_day_number(i32::MAX as int, 12, 31)
}

/// Length of March-year `y`: February of year `y + 1` sits at its end.
pub open spec fn march_year_len(y: int) -> int {
    if spec_is_leap(y + 1) { 366 } else { 365 }
}

proof fn lemma_march_year_step(y: int)
    ensures
        days_before_march_year(y + 1) == days_before_march_year(y) + march_year_len(y),
{
}

proof fn lemma_march_year_monotone(a: int, b: int)
    requires
        a <= b,
    ensures
        days_before_march_year(a) <= days_before_march_year(b),
{
}

proof fn lemma_days_before_era(era: int, yoe: int)
    requires
        0 <= yoe < 400,
    ensures
        days_before_march_year(era * 400 + yoe) == era * 146097 + 365 * yoe + yoe / 4 - yoe / 100,
{
    assert((era * 400 + yoe) / 4 == era * 100 + yoe / 4);
    assert((era * 400 + yoe) / 100 == era * 4 + yoe / 100);
    assert((era * 400 + yoe) / 400 == era);
}

proof fn lemma_year_of_era(doe: int)
    requires
        0 <= doe <= 146096,
    ensures
        ({
            let yoe = (doe - doe / 1460 + doe / 36524 - doe / 146096) / 365;
            let doy = doe - (365 * yoe + yoe / 4 - yoe / 100);
            &&& 0 <= yoe <= 399
            &&& 0 <= doy
            &&& doy < (if spec_is_leap(yoe + 1) { 366int } else { 365int })
        }),
{
}

proof fn lemma_month_of_day(doy: int, y: int)
    requires
        0 <= doy,
        doy < march_year_len(y),
    ensures
        ({
            let mp = (5 * doy + 2) / 153;
            let day = doy - (153 * mp + 2) / 5 + 1;
            let month = if mp < 10 { mp + 3 } else { mp - 9 };
            let year = if month <= 2 { y + 1 } else { y };
            &&& 0 <= mp <= 11
            &&& march_month(month) == mp
            &&& march_year(year, month) == y
            &&& spec_valid_date(year, month, day)
            &&& march_month_start(mp) + day - 1 == doy
        }),
{
}

/// Day numbers are ordered by March-year first, day within it second.
pub(crate) proof fn lemma_march_order(a: int, doy_a: int, b: int, doy_b: int)
    requires
        0 <= doy_a < march_year_len(a),
        0 <= doy_b,
        a < b,
    ensures
        days_before_march_year(a) + doy_a < days_before_march_year(b) + doy_b,
{
    lemma_march_year_step(a);
    lemma_march_year_monotone(a + 1, b);
}

/// The position of a valid date within its March-year.
pub(crate) proof fn lemma_valid_date_doy(year: int, month: int, day: int)
    requires
        spec_valid_date(year, month, day),
    ensures
        0 <= march_month_start(march_month(month)) + day - 1 < march_year_len(march_year(year, month)),
{
}

/// A March-month and day are determined by their position in the year.
proof fn lemma_doy_injective(m1: int, d1: int, m2: int, d2: int, year1: int, year2: int)
    requires
        spec_valid_date(year1, m1, d1),
        spec_valid_date(year2, m2, d2),
        march_year(year1, m1) == march_year(year2, m2),
        march_month_start(march_month(m1)) + d1 == march_month_start(march_month(m2)) + d2,
    ensures
        m1 == m2 && d1 == d2,
{
}

/// Two valid dates with the same day number are the same date.
pub proof fn lemma_day_number_injective(y1: int, m1: int, d1: int, y2: int, m2: int, d2: int)
    requires
        spec_valid_date(y1, m1, d1),
        spec_valid_date(y2, m2, d2),
        spec_day_number(y1, m1, d1) == spec_day_number(y2, m2, d2),
    ensures
        y1 == y2 && m1 == m2 && d1 == d2,
{
    let a = march_year(y1, m1);
    let b = march_year(y2, m2);
    let da = march_month_start(march_month(m1)) + d1 - 1;
    let db = march_month_start(march_month(m2)) + d2 - 1;
    lemma_valid_date_doy(y1, m1, d1);
    lemma_valid_date_doy(y2, m2, d2);
    if a < b {
        lemma_march_order(a, da, b, db);
    } else if b < a {
        lemma_march_order(b, db, a, da);
    }
    assert(a == b);
    lemma_doy_injective(m1, d1, m2, d2, y1, y2);
}

/// Gregorian leap-year test.
pub fn is_leap_year(year: i32) -> (r: bool)
    ensures
        r == spec_is_leap(year as int),
{
    (year % 4 == 0 && year % 100 != 0) || year % 400 == 0
}

/// Days in `month` of `year`; zero when `month` is not in 1..=12.
pub fn days_in_month(year: i32, month: u8) -> (r: u8)
    ensures
        r == spec_days_in_month(year as int, month as int),
{
    if month == 1 || month == 3 || month == 5 || month == 7 || month == 8 || month == 10 || month == 12 {
        31
    } else if month == 4 || month == 6 || month == 9 || month == 11 {
        30
    } else if month == 2 {
        if is_leap_year(year) { 29 } else { 28 }
    } else {
        0
    }
}

/// Whether `year-month-day` names a real calendar date.
pub fn is_valid_date(year: i32, month: u8, day: u8) -> (r: bool)
    ensures
        r == spec_valid_date(year as int, month as int, day as int),
{
    1 <= month && month <= 12 && 1 <= day && day <= days_in_month(year, month)
}

/// Days since 1970-01-01 of `year-month-day` (the formula extends to any
/// month and day values).
pub fn days_from_civil(year: i32, month: u8, day: u8) -> (r: i64)
    ensures
        r == spec_day_number(year as int, month as int, day as int),
{
    let y: i64 = year as i64 - if month <= 2 { 1i64 } else { 0i64 };
    let ys: i64 = y + 2_160_000_000;
    let q4: i64 = ys / 4 - 540_000_000;
    let q100: i64 = ys / 100 - 21_600_000;
    let q400: i64 = ys / 400 - 5_400_000;
    assert(q4 == y / 4 && q100 == y / 100 && q400 == y / 400);
    let mm: i64 = if month > 2 { month as i64 - 3 } else { month as i64 + 9 };
    let doy: i64 = (153 * mm + 2) / 5 + day as i64 - 1;
    365 * y + q4 - q100 + q400 + doy - 719468
}

/// Splits a day count since 0000-03-01 into 400-year eras and the day within the era.
fn split_era(z: i64) -> (r: (i64, i64))
    requires
        -800_000_000_000 <= z <= 800_000_000_000,
    ensures
        0 <= r.1 <= 146096,
        z == r.0 * 146097 + r.1,
        -6_000_000 <= r.0 <= 6_000_000,
{
    let zs: i64 = z + 876_582_000_000;
    let era: i64 = zs / 146097 - 6_000_000;
    let doe: i64 = z - era * 146097;
    (era, doe)
}

/// Splits a day of an era into the year of the era and the day of that March-year.
fn split_year_of_era(doe: i64) -> (r: (i64, i64))
    requires
        0 <= doe <= 146096,
    ensures
        0 <= r.0 <= 399,
        0 <= r.1 < (if spec_is_leap(r.0 + 1) { 366int } else { 365int }),
        doe == 365 * r.0 + r.0 / 4 - r.0 / 100 + r.1,
{
    proof {
        lemma_year_of_era(doe as int);
    }
    let yoe: i64 = (doe - doe / 1460 + doe / 36524 - doe / 146096) / 365;
    let doy: i64 = doe - (365 * yoe + yoe / 4 - yoe / 100);
    (yoe, doy)
}

/// Splits a day of March-year `yy` into the calendar date it names.
fn split_day_of_year(doy: i64, yy: i64) -> (r: (i64, i64, i64))
    requires
        0 <= doy < march_year_len(yy as int),
        -3_000_000_000 <= yy <= 3_000_000_000,
    ensures
        spec_valid_date(r.0 as int, r.1 as int, r.2 as int),
        march_year(r.0 as int, r.1 as int) == yy,
        march_month_start(march_month(r.1 as int)) + r.2 - 1 == doy,
{
    proof {
        lemma_month_of_day(doy as int, yy as int);
    }
    let mp: i64 = (5 * doy + 2) / 153;
    let d: i64 = doy - (153 * mp + 2) / 5 + 1;
    let m: i64 = if mp < 10 { mp + 3 } else { mp - 9 };
    let year: i64 = if m <= 2 { yy + 1 } else { yy };
    (year, m, d)
}

/// The date `days` days after 1970-01-01.
pub fn civil_from_days(days: i64) -> (r: (i32, u8, u8))
    requires
        min_day_number() <= days <= max_day_number(),
    ensures
        spec_valid_date(r.0 as int, r.1 as int, r.2 as int),
        spec_day_number(r.0 as int, r.1 as int, r.2 as int) == days,
{
    assert(min_day_number() == -784_353_015_833i64);
    assert(max_day_number() == 784_351_576_776i64);
    let z: i64 = days + 719468;
    let (era, doe) = split_era(z);
    let (yoe, doy) = split_year_of_era(doe);
    let yy: i64 = yoe + era * 400;
    proof {
        lemma_days_before_era(era as int, yoe as int);
        assert(spec_is_leap(yy + 1) == spec_is_leap(yoe + 1));
    }
    let (year, m, d) = split_day_of_year(doy, yy);
    proof {
        let imax = i32::MAX as int;
        let imin = i32::MIN as int;
        if year > imax {
            if yy > imax {
                lemma_march_order(imax, 305, yy as int, doy as int);
            }
        }
        if year < imin {
            if yy < imin - 1 {
                lemma_march_order(yy as int, doy as int, imin - 1, 306);
            }
        }
    }
    (year as i32, m as u8, d as u8)
}

} // verus!

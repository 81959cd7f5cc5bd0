//! How day numbers follow the calendar: an earlier date has a smaller day
//! number, and every date whose year fits in `i32` has a day number between
//! the two extremes.

use vstd::prelude::*;

use crate::gantt_date::{
    lemma_march_order, lemma_valid_date_doy, march_month, march_month_start,
    march_year, max_day_number, min_day_number, spec_day_number, spec_days_in_month, spec_valid_date,
};

verus! {

/// Whether `(y1, m1, d1)` comes before `(y2, m2, d2)` in the calendar.
pub open spec fn date_before(y1: int, m1: int, d1: int, y2: int, m2: int, d2: int) -> bool {
    y1 < y2 || (y1 == y2 && (m1 < m2 || (m1 == m2 && d1 < d2)))
}

/// A valid date ends before the next March-month begins.
proof fn lemma_month_fits(year: int, m1: int, d1: int, m2: int)
    requires
        spec_valid_date(year, m1, d1),
        1 <= m2 <= 12,
        march_month(m1) < march_month(m2),
    ensures
        march_month_start(march_month(m1)) + d1 <= march_month_start(march_month(m2)),
{
    let a = march_month(m1);
    let b = march_month(m2);
    assert(march_month_start(a) + spec_days_in_month(year, m1) == march_month_start(a + 1));
    assert(march_month_start(a + 1) <= march_month_start(b)) by {
        assert(153 * (a + 1) + 2 <= 153 * b + 2);
    }
}

/// An earlier valid date has a smaller day number.
pub proof fn lemma_day_number_ordered(y1: int, m1: int, d1: int, y2: int, m2: int, d2: int)
    requires
        spec_valid_date(y1, m1, d1),
        spec_valid_date(y2, m2, d2),
        date_before(y1, m1, d1, y2, m2, d2),
    ensures
        spec_day_number(y1, m1, d1) < spec_day_number(y2, m2, d2),
{
    let a = march_year(y1, m1);
    let b = march_year(y2, m2);
    let da = march_month_start(march_month(m1)) + d1 - 1;
    let db = march_month_start(march_month(m2)) + d2 - 1;
    lemma_valid_date_doy(y1, m1, d1);
    lemma_valid_date_doy(y2, m2, d2);
    if a < b {
        lemma_march_order(a, da, b, db);
    } else {
        assert(a == b);
        if march_month(m1) < march_month(m2) {
            lemma_month_fits(y1, m1, d1, m2);
        } else {
            assert(m1 == m2);
        }
    }
}

/// The day number of a valid date whose year fits in `i32` lies between
/// [`min_day_number`] and [`max_day_number`].
pub proof fn lemma_day_number_in_range(year: int, month: int, day: int)
    requires
        spec_valid_date(year, month, day),
        i32::MIN <= year <= i32::MAX,
    ensures
        min_day_number() <= spec_day_number(year, month, day) <= max_day_number(),
{
    if date_before(i32::MIN as int, 1, 1, year, month, day) {
        lemma_day_number_ordered(i32::MIN as int, 1, 1, year, month, day);
    } else {
        assert(year == i32::MIN && month == 1 && day == 1);
    }
    if date_before(year, month, day, i32::MAX as int, 12, 31) {
        lemma_day_number_ordered(year, month, day, i32::MAX as int, 12, 31);
    } else {
        assert(year == i32::MAX && month == 12 && day == 31);
    }
}

} // verus!

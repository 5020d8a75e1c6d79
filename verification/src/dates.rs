//! Proleptic-Gregorian date arithmetic: month lengths, day numbering and
//! weekdays, as spec functions, together with the trusted bridge to chrono.
use vstd::prelude::*;
use vstd::arithmetic::div_mod::{lemma_add_mod_noop, lemma_small_mod};
use chrono::Datelike;

verus! {

/// Smallest year for which chrono's `NaiveDate` can hold a date.
pub const MIN_YEAR: i32 = -262143;

/// Largest year for which chrono's `NaiveDate` can hold a date.
pub const MAX_YEAR: i32 = 262142;

/// True of years with 366 days in the proleptic Gregorian calendar.
pub open spec fn is_leap_year(year: int) -> bool {
    (year % 4 == 0 && year % 100 != 0) || year % 400 == 0
}

/// Number of days in the given month (month is 1..=12).
pub open spec fn days_in_month(year: int, month: int) -> int {
    if month == 2 {
        if is_leap_year(year) {
            29
        } else {
            28
        }
    } else if month == 4 || month == 6 || month == 9 || month == 11 {
        30
    } else {
        31
    }
}

/// Number of days of `year` that precede the first of `month`.
pub open spec fn days_before_month(year: int, month: int) -> int
    decreases month,
{
    if month <= 1 {
        0
    } else {
        days_before_month(year, month - 1) + days_in_month(year, month - 1)
    }
}

/// Number of leap years among 1..=n (or, for negative n, minus the count
/// among n+1..=0), written with floor divisions.
pub open spec fn leap_count(n: int) -> int {
    n / 4 - n / 100 + n / 400
}

/// Days elapsed since the epoch 0001-01-01 of the proleptic Gregorian
/// calendar; that epoch itself has day index 0.
pub open spec fn day_index(year: int, month: int, day: int) -> int {
    (year - 1) * 365 + leap_count(year - 1) + days_before_month(year, month) + (day - 1)
}

/// Weekday of a date, numbered from Monday: Monday = 0 .. Sunday = 6.
/// The epoch 0001-01-01 falls on a Monday.
pub open spec fn weekday_of(year: int, month: int, day: int) -> int {
    day_index(year, month, day) % 7
}

/// A (year, month, day) triple that chrono's `NaiveDate` accepts.
pub open spec fn valid_date(year: int, month: int, day: int) -> bool {
    &&& MIN_YEAR <= year <= MAX_YEAR
    &&& 1 <= month <= 12
    &&& 1 <= day <= days_in_month(year, month)
}

/// Within one month, each day's weekday is one step (mod 7) after the
/// previous day's.
pub proof fn lemma_weekday_step(year: int, month: int, day: int)
    requires
        1 <= day,
    ensures
        weekday_of(year, month, day + 1) == (weekday_of(year, month, day) + 1) % 7,
{
    assert(day_index(year, month, day + 1) == day_index(year, month, day) + 1);
    lemma_add_mod_noop(day_index(year, month, day), 1, 7);
    lemma_small_mod(1, 7);
    assert((day_index(year, month, day) % 7 + 1int % 7) % 7 == (weekday_of(year, month, day) + 1) % 7);
}

/// Relies on chrono's `NaiveDate::from_ymd_opt`, which returns `Some`
/// exactly for the proleptic-Gregorian dates it can represent: year in
/// `MIN_YEAR..=MAX_YEAR`, month in `1..=12`, day in `1..=` the month's length.
#[verifier::external_body]
pub(crate) fn ymd_is_valid(year: i32, month: u32, day: u32) -> (r: bool)
    ensures
        r == valid_date(year as int, month as int, day as int),
{
    chrono::NaiveDate::from_ymd_opt(year, month, day).is_some()
}

/// Relies on chrono's `NaiveDate::weekday` and `Weekday::num_days_from_monday`:
/// the weekday of the given date, numbered Monday = 0 .. Sunday = 6.
#[verifier::external_body]
pub(crate) fn weekday_from_monday(year: i32, month: u32, day: u32) -> (r: u32)
    requires
        valid_date(year as int, month as int, day as int),
    ensures
        r == weekday_of(year as int, month as int, day as int),
        r < 7,
{
    chrono::NaiveDate::from_ymd_opt(year, month, day).unwrap().weekday().num_days_from_monday()
}

/// Relies on chrono's `NaiveDate::pred_opt` and `Datelike::day`: the
/// day-of-month of the date one day before the first of the given month,
/// which is the length of the month before it.
#[verifier::external_body]
pub(crate) fn day_before_first_of(year: i32, month: u32) -> (r: u32)
    requires
        valid_date(year as int, month as int, 1),
        !(year == MIN_YEAR && month == 1),
    ensures
        r == if month == 1 {
            days_in_month(year - 1, 12)
        } else {
            days_in_month(year as int, month - 1)
        },
{
    chrono::NaiveDate::from_ymd_opt(year, month, 1).unwrap().pred_opt().unwrap().day()
}

/// The weekday of day `day` sits `day - 1` steps (mod 7) after the
/// weekday of the first of the month.
pub proof fn lemma_weekday_from_first(year: int, month: int, day: int)
    requires
        1 <= day,
    ensures
        weekday_of(year, month, day) == (weekday_of(year, month, 1) + (day - 1)) % 7,
    decreases day,
{
    if day == 1 {
        assert(0 <= weekday_of(year, month, 1) < 7);
        lemma_small_mod(weekday_of(year, month, 1) as nat, 7);
    } else {
        lemma_weekday_from_first(year, month, day - 1);
        lemma_weekday_step(year, month, day - 1);
        lemma_add_mod_noop(weekday_of(year, month, 1) + (day - 2), 1, 7);
        lemma_small_mod(1, 7);
    }
}

} // verus!

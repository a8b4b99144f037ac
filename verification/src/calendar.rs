//! The proleptic Gregorian calendar, stated over mathematical integers.
use vstd::prelude::*;

use crate::arith::{div_floor, rem_floor};

verus! {

/// The smallest year a `Date` can hold.
pub const MIN_YEAR: i32 = -100_000;

/// The largest year a `Date` can hold.
pub const MAX_YEAR: i32 = 100_000;

/// Days from 0001-01-01 to 1970-01-01 in the proleptic Gregorian calendar.
pub const EPOCH_DAYS_FROM_YEAR_ONE: i64 = 719_162;

/// Whether `year` is a leap year in the proleptic Gregorian calendar.
pub open spec fn is_leap(year: int) -> bool {
    (year % 4 == 0 && year % 100 != 0) || year % 400 == 0
}

/// The number of days in `year`.
pub open spec fn year_length(year: int) -> int {
    if is_leap(year) {
        366
    } else {
        365
    }
}

/// Days from 1970-01-01 to the first day of `year`; negative before 1970.
pub open spec fn days_before_year(year: int) -> int {
    let a = year - 1;
    365 * a + a / 4 - a / 100 + a / 400 - EPOCH_DAYS_FROM_YEAR_ONE
}

/// Floor division steps up by one exactly at the multiples of the divisor.
pub(crate) proof fn lemma_div_step(y: int, d: int)
    requires
        d > 0,
    ensures
        y / d == (y - 1) / d + (if y % d == 0 { 1int } else { 0 }),
{
    let q = (y - 1) / d;
    let r = (y - 1) % d;
    vstd::arithmetic::div_mod::lemma_fundamental_div_mod(y - 1, d);
    vstd::arithmetic::div_mod::lemma_mod_bound(y - 1, d);
    if r + 1 == d {
        assert(y == (q + 1) * d + 0) by (nonlinear_arith)
            requires
                y - 1 == d * q + r,
                r + 1 == d,
        ;
        vstd::arithmetic::div_mod::lemma_fundamental_div_mod_converse(y, d, q + 1, 0);
    } else {
        assert(y == q * d + (r + 1)) by (nonlinear_arith)
            requires
                y - 1 == d * q + r,
        ;
        vstd::arithmetic::div_mod::lemma_fundamental_div_mod_converse(y, d, q, r + 1);
    }
}

/// A multiple of `a * b` is a multiple of `a`.
proof fn lemma_multiple_of_factor(y: int, a: int, b: int)
    requires
        a > 0,
        b > 0,
        y % (a * b) == 0,
    ensures
        y % a == 0,
{
    vstd::arithmetic::mul::lemma_mul_strictly_positive(a, b);
    vstd::arithmetic::div_mod::lemma_fundamental_div_mod(y, a * b);
    let k = y / (a * b);
    assert(y == (k * b) * a) by (nonlinear_arith)
        requires
            y == (a * b) * k,
    ;
    vstd::arithmetic::div_mod::lemma_fundamental_div_mod_converse(y, a, k * b, 0);
}

/// The first day of the next year lies `year_length(year)` days after
/// the first day of `year`.
pub proof fn lemma_days_before_next_year(year: int)
    ensures
        days_before_year(year + 1) == days_before_year(year) + year_length(year),
{
    lemma_div_step(year, 4);
    lemma_div_step(year, 100);
    lemma_div_step(year, 400);
    if year % 400 == 0 {
        lemma_multiple_of_factor(year, 100, 4);
        lemma_multiple_of_factor(year, 4, 100);
    }
    if year % 100 == 0 {
        lemma_multiple_of_factor(year, 4, 25);
    }
}

} // verus!

verus! {

/// Years at or after `y1` start no earlier than `365 * (y2 - y1)` days after it,
/// and no later than `366 * (y2 - y1)` days after it.
pub proof fn lemma_days_before_year_monotone(y1: int, y2: int)
    requires
        y1 <= y2,
    ensures
        days_before_year(y1) + 365 * (y2 - y1) <= days_before_year(y2),
        days_before_year(y2) <= days_before_year(y1) + 366 * (y2 - y1),
    decreases y2 - y1,
{
    if y1 < y2 {
        lemma_days_before_next_year(y1);
        lemma_days_before_year_monotone(y1 + 1, y2);
    }
}

} // verus!

verus! {

/// Days of the year that come before the first day of `month` (1-based);
/// `month == 13` gives the length of the year.
pub open spec fn days_before_month(leap: bool, month: int) -> int {
    let base: int = if month <= 1 {
        0
    } else if month == 2 {
        31
    } else if month == 3 {
        59
    } else if month == 4 {
        90
    } else if month == 5 {
        120
    } else if month == 6 {
        151
    } else if month == 7 {
        181
    } else if month == 8 {
        212
    } else if month == 9 {
        243
    } else if month == 10 {
        273
    } else if month == 11 {
        304
    } else if month == 12 {
        334
    } else {
        365
    };
    if leap && month > 2 {
        base + 1
    } else {
        base
    }
}

/// The number of days in `month` of `year`.
pub open spec fn month_length(year: int, month: int) -> int {
    if month == 2 {
        if is_leap(year) {
            29
        } else {
            28
        }
    } else if month == 4 || month == 6 || month == 9 || month == 11 {
        30
    } else {
        31
    }
}

/// The month (1-12) in which the `ordinal`-th day of a year falls.
pub open spec fn month_of_ordinal(leap: bool, ordinal: int) -> int {
    if ordinal > days_before_month(leap, 12) {
        12
    } else if ordinal > days_before_month(leap, 11) {
        11
    } else if ordinal > days_before_month(leap, 10) {
        10
    } else if ordinal > days_before_month(leap, 9) {
        9
    } else if ordinal > days_before_month(leap, 8) {
        8
    } else if ordinal > days_before_month(leap, 7) {
        7
    } else if ordinal > days_before_month(leap, 6) {
        6
    } else if ordinal > days_before_month(leap, 5) {
        5
    } else if ordinal > days_before_month(leap, 4) {
        4
    } else if ordinal > days_before_month(leap, 3) {
        3
    } else if ordinal > days_before_month(leap, 2) {
        2
    } else {
        1
    }
}

/// Whether `(year, ordinal)` names a day that a `Date` can hold.
pub open spec fn valid_ordinal_date(year: int, ordinal: int) -> bool {
    &&& MIN_YEAR <= year <= MAX_YEAR
    &&& 1 <= ordinal <= year_length(year)
}

/// Whether `(year, month, day)` names a day that a `Date` can hold.
pub open spec fn valid_calendar_date(year: int, month: int, day: int) -> bool {
    &&& MIN_YEAR <= year <= MAX_YEAR
    &&& 1 <= month <= 12
    &&& 1 <= day <= month_length(year, month)
}

/// The number of days in `month` (1-12) of the Gregorian calendar, listed
/// month by month: thirty days have September, April, June and November;
/// February has 28, or 29 in a leap year; all the rest have 31.
pub open spec fn gregorian_month_days(leap: bool, month: int) -> int {
    seq![
        31int,
        if leap {
            29int
        } else {
            28int
        },
        31int,
        30int,
        31int,
        30int,
        31int,
        31int,
        30int,
        31int,
        30int,
        31int,
    ][month - 1]
}

/// The days in the months of a year that come before `month`, added up.
pub open spec fn gregorian_days_before_month(leap: bool, month: int) -> int
    decreases month,
{
    if month <= 1 {
        0
    } else {
        gregorian_days_before_month(leap, month - 1) + gregorian_month_days(leap, month - 1)
    }
}

/// Months have their Gregorian lengths, and the days before a month are
/// those of all earlier months added up; so a calendar date is valid exactly
/// when its day lies within its month's Gregorian length.
pub proof fn lemma_gregorian_months(year: int, month: int, day: int)
    requires
        1 <= month <= 12,
    ensures
        month_length(year, month) == gregorian_month_days(is_leap(year), month),
        days_before_month(is_leap(year), month) == gregorian_days_before_month(is_leap(year), month),
        valid_calendar_date(year, month, day) <==> (MIN_YEAR <= year <= MAX_YEAR && 1 <= day
            <= gregorian_month_days(is_leap(year), month)),
{
    reveal_with_fuel(gregorian_days_before_month, 13);
}

/// The months of a year are consecutive: each one's length is the gap
/// between its first day and the next month's first day.
pub proof fn lemma_month_lengths(year: int, month: int)
    requires
        1 <= month <= 12,
    ensures
        days_before_month(is_leap(year), month + 1) == days_before_month(is_leap(year), month)
            + month_length(year, month),
        days_before_month(is_leap(year), 13) == year_length(year),
{
}

/// The month found for an ordinal day contains that day, and a calendar day
/// maps back to its own month.
pub proof fn lemma_month_of_ordinal(year: int, month: int, day: int)
    requires
        1 <= month <= 12,
        1 <= day <= month_length(year, month),
    ensures
        month_of_ordinal(is_leap(year), days_before_month(is_leap(year), month) + day) == month,
{
}

/// The ordinal day of the first day of year `MIN_YEAR`, counted from 1970-01-01.
pub const MIN_DAY: i64 = -37_243_778;

/// The ordinal day of the last day of year `MAX_YEAR`, counted from 1970-01-01.
pub const MAX_DAY: i64 = 35_805_087;

/// The bounds on the day count match the bounds on the year.
pub proof fn lemma_day_bounds()
    ensures
        days_before_year(MIN_YEAR as int) == MIN_DAY,
        days_before_year(MAX_YEAR as int + 1) == MAX_DAY + 1,
{
    assert(days_before_year(MIN_YEAR as int) == MIN_DAY);
    assert(days_before_year(MAX_YEAR as int + 1) == MAX_DAY + 1);
}

/// Whether `year` is a leap year in the proleptic Gregorian calendar.
pub fn is_leap_year(year: i32) -> (r: bool)
    ensures
        r == is_leap(year as int),
{
    let y = year as i64;
    (rem_floor(y, 4) == 0 && rem_floor(y, 100) != 0) || rem_floor(y, 400) == 0
}

/// The number of days in `year`: 365, or 366 in a leap year.
pub fn days_in_year(year: i32) -> (r: u16)
    ensures
        r == year_length(year as int),
{
    if is_leap_year(year) {
        366
    } else {
        365
    }
}

/// The first day of `year`, counted in days from 1970-01-01.
pub fn days_before_year_exec(year: i32) -> (r: i64)
    ensures
        r == days_before_year(year as int),
{
    let a = year as i64 - 1;
    365 * a + div_floor(a, 4) - div_floor(a, 100) + div_floor(a, 400) - EPOCH_DAYS_FROM_YEAR_ONE
}


/// The first day (a Monday) of ISO week 1 of `year`, counted from 1970-01-01:
/// the Monday on or before the fourth of January.
pub open spec fn iso_week_one_start(year: int) -> int {
    let jan4 = days_before_year(year) + 3;
    // 1970-01-01 was a Thursday, three days after a Monday.
    jan4 - (jan4 + 3) % 7
}

/// The number of ISO weeks in the ISO year `year`: 52 or 53.
pub open spec fn iso_weeks_in_year(year: int) -> int {
    (iso_week_one_start(year + 1) - iso_week_one_start(year)) / 7
}

/// The day of the week of January 1 of `year`, counted from Monday = 0.
pub open spec fn jan1_days_from_monday(year: int) -> int {
    (days_before_year(year) + 3) % 7
}

/// An ISO year has 53 weeks when it starts on a Thursday, or on a Wednesday
/// in a leap year; otherwise it has 52. Its week 1 starts within three days
/// of January 1.
pub proof fn lemma_iso_weeks_in_year(year: int)
    ensures
        iso_week_one_start(year + 1) - iso_week_one_start(year) == 7 * iso_weeks_in_year(year),
        iso_weeks_in_year(year) == (if jan1_days_from_monday(year) == 3 || (jan1_days_from_monday(
            year,
        ) == 2 && is_leap(year)) {
            53int
        } else {
            52int
        }),
        days_before_year(year) - 3 <= iso_week_one_start(year) <= days_before_year(year) + 3,
{
    lemma_days_before_next_year(year);
    let d = days_before_year(year);
    let l = year_length(year);
    assert((d + l + 6) % 7 == ((d + 6) % 7 + l % 7) % 7) by {
        vstd::arithmetic::div_mod::lemma_add_mod_noop(d + 6, l, 7);
    }
    assert((d + 3) % 7 == ((d + 6) % 7 + 4) % 7) by {
        vstd::arithmetic::div_mod::lemma_add_mod_noop(d + 6, 4, 7);
        vstd::arithmetic::div_mod::lemma_mod_add_multiples_vanish(d + 3, 7);
    }
}

/// The number of ISO weeks in `year`: 52 or 53.
pub fn weeks_in_year(year: i32) -> (r: u8)
    ensures
        r == iso_weeks_in_year(year as int),
        52 <= r <= 53,
{
    proof {
        lemma_iso_weeks_in_year(year as int);
    }
    let jan1 = rem_floor(days_before_year_exec(year) + 3, 7);
    if jan1 == 3 || (jan1 == 2 && is_leap_year(year)) {
        53
    } else {
        52
    }
}

} // verus!

//! Calendar dates in the proleptic Gregorian calendar.
use vstd::prelude::*;

use crate::calendar::{
    days_in_year, is_leap_year, lemma_month_lengths, lemma_month_of_ordinal, month_length,
    valid_calendar_date, year_length, iso_week_one_start, iso_weeks_in_year, jan1_days_from_monday,
    lemma_iso_weeks_in_year, weeks_in_year,
    days_before_month, days_before_year, days_before_year_exec, is_leap, lemma_day_bounds,
    lemma_days_before_next_year, lemma_days_before_year_monotone, month_of_ordinal,
    valid_ordinal_date, EPOCH_DAYS_FROM_YEAR_ONE, MAX_DAY, MAX_YEAR, MIN_DAY, MIN_YEAR,
    gregorian_days_before_month, gregorian_month_days, lemma_gregorian_months,
};
use crate::error::{Component, ComponentRangeError};
use crate::weekday::Weekday;

verus! {

/// A calendar date, held as a year and the day of that year (1-based).
#[derive(Clone, Copy, Debug, PartialEq, Eq, Hash, PartialOrd, Ord, Structural)]
pub struct Date {
    year: i32,
    ordinal: u16,
}

impl Date {
    /// Every `Date` names a day of a year in `MIN_YEAR..=MAX_YEAR`.
    #[verifier::type_invariant]
    pub closed spec fn inv(self) -> bool {
        valid_ordinal_date(self.year as int, self.ordinal as int)
    }

    /// The year of the date.
    pub closed spec fn spec_year(self) -> int {
        self.year as int
    }

    /// The day of the year, from 1.
    pub closed spec fn spec_ordinal(self) -> int {
        self.ordinal as int
    }

    /// The date as a count of days from 1970-01-01 (negative before it).
    pub open spec fn days(self) -> int {
        days_before_year(self.spec_year()) + self.spec_ordinal() - 1
    }

    /// The month of the date, 1 to 12.
    pub open spec fn spec_month(self) -> int {
        month_of_ordinal(is_leap(self.spec_year()), self.spec_ordinal())
    }

    /// The day of the month, from 1.
    pub open spec fn spec_day(self) -> int {
        self.spec_ordinal() - days_before_month(is_leap(self.spec_year()), self.spec_month())
    }

    /// The day of the week; 1970-01-01 was a Thursday.
    pub open spec fn spec_weekday(self) -> Weekday {
        Weekday::after_monday(self.days() + 3)
    }

    /// The ISO 8601 week-based year: the year whose week 1 (the week holding
    /// January 4) starts on or before the date, latest such.
    pub open spec fn spec_iso_year(self) -> int {
        if self.days() >= iso_week_one_start(self.spec_year() + 1) {
            self.spec_year() + 1
        } else if self.days() < iso_week_one_start(self.spec_year()) {
            self.spec_year() - 1
        } else {
            self.spec_year()
        }
    }

    /// The ISO 8601 week number within `spec_iso_year`, from 1.
    pub open spec fn spec_iso_week(self) -> int {
        (self.days() - iso_week_one_start(self.spec_iso_year())) / 7 + 1
    }

    /// The week number when week 1 starts on the year's first Monday and the
    /// days before it are in week 0.
    pub open spec fn spec_monday_based_week(self) -> int {
        let first_monday = 1 + (7 - jan1_days_from_monday(self.spec_year())) % 7;
        (self.spec_ordinal() - first_monday) / 7 + 1
    }

    /// The week number when week 1 starts on the year's first Sunday and the
    /// days before it are in week 0.
    pub open spec fn spec_sunday_based_week(self) -> int {
        let first_sunday = 1 + (6 - jan1_days_from_monday(self.spec_year())) % 7;
        (self.spec_ordinal() - first_sunday) / 7 + 1
    }

    /// What the invariant of a date says of its year and its day count.
    pub proof fn lemma_valid(self)
        requires
            self.inv(),
        ensures
            valid_ordinal_date(self.spec_year(), self.spec_ordinal()),
            MIN_DAY <= self.days() <= MAX_DAY,
    {
        lemma_day_bounds();
        lemma_days_before_year_monotone(MIN_YEAR as int, self.spec_year());
        lemma_days_before_year_monotone(self.spec_year() + 1, MAX_YEAR as int + 1);
        lemma_days_before_next_year(self.spec_year());
    }

    /// Two dates with the same day count are the same date.
    pub proof fn lemma_days_injective(d1: Date, d2: Date)
        requires
            d1.inv(),
            d2.inv(),
            d1.days() == d2.days(),
        ensures
            d1 == d2,
    {
        if d1.year < d2.year {
            lemma_days_before_next_year(d1.year as int);
            lemma_days_before_year_monotone(d1.year as int + 1, d2.year as int);
        } else if d2.year < d1.year {
            lemma_days_before_next_year(d2.year as int);
            lemma_days_before_year_monotone(d2.year as int + 1, d1.year as int);
        }
    }

    /// The date that lies `n` days after 1970-01-01, for `n` in `MIN_DAY..=MAX_DAY`.
    pub closed spec fn from_days_spec(n: int) -> Date {
        let year = choose|year: int|
            MIN_YEAR <= year <= MAX_YEAR && #[trigger] days_before_year(year) <= n < days_before_year(
                year + 1,
            );
        Date { year: year as i32, ordinal: (n - days_before_year(year) + 1) as u16 }
    }

    /// `from_days_spec(n)` is a valid date with day count `n`.
    pub proof fn lemma_from_days_spec(n: int)
        requires
            MIN_DAY <= n <= MAX_DAY,
        ensures
            Date::from_days_spec(n).inv(),
            Date::from_days_spec(n).days() == n,
    {
        lemma_day_bounds();
        let y = year_containing_day(n, MAX_YEAR as int);
        let year = choose|year: int|
            MIN_YEAR <= year <= MAX_YEAR && #[trigger] days_before_year(year) <= n < days_before_year(
                year + 1,
            );
        lemma_days_before_next_year(year);
    }

    /// A date is the date of its own day count.
    pub proof fn lemma_days_round_trip(self)
        requires
            self.inv(),
        ensures
            Date::from_days_spec(self.days()) == self,
    {
        self.lemma_valid();
        Date::lemma_from_days_spec(self.days());
        Date::lemma_days_injective(self, Date::from_days_spec(self.days()));
    }

    /// The day after a date falls on the next day of the week.
    pub proof fn lemma_weekday_successor(self)
        requires
            self.inv(),
            self.days() < MAX_DAY,
        ensures
            Date::from_days_spec(self.days() + 1).spec_weekday() == Weekday::after_monday(
                self.spec_weekday().days_from_monday() + 1,
            ),
    {
        self.lemma_valid();
        Date::lemma_from_days_spec(self.days() + 1);
        let n = self.days() + 3;
        vstd::arithmetic::div_mod::lemma_mod_bound(n, 7);
        vstd::arithmetic::div_mod::lemma_add_mod_noop(n, 1, 7);
        vstd::arithmetic::div_mod::lemma_mod_twice(n % 7 + 1, 7);
        assert(Weekday::after_monday(n).days_from_monday() == n % 7);
    }

    /// The date whose year and day of the year are given; the caller has
    /// checked that they are valid.
    fn from_ordinal_unchecked(year: i32, ordinal: u16) -> (d: Date)
        requires
            valid_ordinal_date(year as int, ordinal as int),
        ensures
            d.spec_year() == year,
            d.spec_ordinal() == ordinal,
    {
        Date { year, ordinal }
    }

    /// The date that lies `n` days after 1970-01-01.
    pub fn from_days(n: i64) -> (d: Date)
        requires
            MIN_DAY <= n <= MAX_DAY,
        ensures
            d.days() == n,
            d == Date::from_days_spec(n as int),
    {
        proof {
            lemma_day_bounds();
        }
        // First estimate the year from the mean length of a year, then correct it.
        let from_year_one = n + EPOCH_DAYS_FROM_YEAR_ONE;
        let estimate = from_year_one * 400 / 146_097 + 1;
        let mut year: i32 = if estimate < MIN_YEAR as i64 {
            MIN_YEAR
        } else if estimate > MAX_YEAR as i64 {
            MAX_YEAR
        } else {
            estimate as i32
        };
        while days_before_year_exec(year) > n
            invariant
                MIN_YEAR <= year <= MAX_YEAR,
                days_before_year(MIN_YEAR as int) <= n,
            decreases year - MIN_YEAR,
        {
            year = year - 1;
        }
        while days_before_year_exec(year + 1) <= n
            invariant
                MIN_YEAR <= year <= MAX_YEAR,
                days_before_year(year as int) <= n,
                n < days_before_year(MAX_YEAR as int + 1),
            decreases MAX_YEAR - year,
        {
            year = year + 1;
        }
        let start = days_before_year_exec(year);
        proof {
            lemma_days_before_next_year(year as int);
        }
        let ordinal = (n - start + 1) as u16;
        let d = Date::from_ordinal_unchecked(year, ordinal);
        proof {
            Date::lemma_from_days_spec(n as int);
            Date::lemma_days_injective(d, Date::from_days_spec(n as int));
        }
        d
    }

    /// The date as a count of days from 1970-01-01.
    pub fn days_since_epoch(self) -> (r: i64)
        ensures
            r == self.days(),
            MIN_DAY <= r <= MAX_DAY,
    {
        proof {
            use_type_invariant(&self);
            self.lemma_valid();
        }
        days_before_year_exec(self.year) + self.ordinal as i64 - 1
    }

    /// The date of the `ordinal`-th day of `year`.
    pub fn try_from_yo(year: i32, ordinal: u16) -> (r: Result<Date, ComponentRangeError>)
        ensures
            match r {
                Ok(d) => valid_ordinal_date(year as int, ordinal as int) && d.spec_year() == year
                    && d.spec_ordinal() == ordinal,
                Err(e) => !valid_ordinal_date(year as int, ordinal as int) && e.component == (
                if MIN_YEAR <= year <= MAX_YEAR {
                    Component::Ordinal
                } else {
                    Component::Year
                }),
            },
    {
        if year < MIN_YEAR || year > MAX_YEAR {
            return Err(ComponentRangeError { component: Component::Year });
        }
        if ordinal < 1 || ordinal > days_in_year(year) {
            return Err(ComponentRangeError { component: Component::Ordinal });
        }
        Ok(Date::from_ordinal_unchecked(year, ordinal))
    }

    /// The date of the given day of the given month of `year`.
    pub fn try_from_ymd(year: i32, month: u8, day: u8) -> (r: Result<Date, ComponentRangeError>)
        ensures
            match r {
                Ok(d) => valid_calendar_date(year as int, month as int, day as int)
                    && d.spec_year() == year && d.spec_month() == month && d.spec_day() == day,
                Err(e) => !valid_calendar_date(year as int, month as int, day as int)
                    && e.component == (if !(MIN_YEAR <= year <= MAX_YEAR) {
                    Component::Year
                } else if !(1 <= month <= 12) {
                    Component::Month
                } else {
                    Component::Day
                }),
            },
    {
        if year < MIN_YEAR || year > MAX_YEAR {
            return Err(ComponentRangeError { component: Component::Year });
        }
        if month < 1 || month > 12 {
            return Err(ComponentRangeError { component: Component::Month });
        }
        if day < 1 || day > days_in_month(year, month) {
            return Err(ComponentRangeError { component: Component::Day });
        }
        let leap = is_leap_year(year);
        proof {
            lemma_month_lengths(year as int, month as int);
            lemma_month_of_ordinal(year as int, month as int, day as int);
        }
        let ordinal = days_before_month_exec(leap, month) + day as u16;
        Ok(Date::from_ordinal_unchecked(year, ordinal))
    }

    /// The first day of ISO week 1 of `year`, counted from 1970-01-01.
    fn iso_week_one_start_exec(year: i32) -> (r: i64)
        ensures
            r == iso_week_one_start(year as int),
    {
        let jan4 = days_before_year_exec(year) + 3;
        jan4 - crate::arith::rem_floor(jan4 + 3, 7)
    }

    /// The date of the given weekday in the given ISO week of the ISO week-based `year`.
    pub fn try_from_iso_ywd(year: i32, week: u8, weekday: Weekday) -> (r: Result<
        Date,
        ComponentRangeError,
    >)
        ensures
            ({
                let n = iso_week_one_start(year as int) + 7 * (week - 1)
                    + weekday.days_from_monday();
                let valid_week = 1 <= week <= iso_weeks_in_year(year as int);
                let valid_year = MIN_YEAR <= year <= MAX_YEAR && MIN_DAY <= n <= MAX_DAY;
                match r {
                    Ok(d) => valid_week && valid_year && d.days() == n && d.spec_iso_year()
                        == year && d.spec_iso_week() == week && d.spec_weekday() == weekday,
                    Err(e) => !(valid_week && valid_year) && e.component == (if MIN_YEAR <= year
                        <= MAX_YEAR && !valid_week {
                        Component::Week
                    } else {
                        Component::Year
                    }),
                }
            }),
    {
        if year < MIN_YEAR || year > MAX_YEAR {
            return Err(ComponentRangeError { component: Component::Year });
        }
        if week < 1 || week > weeks_in_year(year) {
            return Err(ComponentRangeError { component: Component::Week });
        }
        let start = Date::iso_week_one_start_exec(year);
        let n = start + 7 * (week as i64 - 1) + weekday.number_days_from_monday() as i64;
        if n < MIN_DAY || n > MAX_DAY {
            return Err(ComponentRangeError { component: Component::Year });
        }
        let d = Date::from_days(n);
        proof {
            use_type_invariant(&d);
            d.lemma_valid();
            lemma_iso_week_position(year as int, d.spec_year(), n as int, week as int, weekday);
        }
        Ok(d)
    }

    /// The year of the date.
    pub fn year(self) -> (r: i32)
        ensures
            r == self.spec_year(),
            MIN_YEAR <= r <= MAX_YEAR,
    {
        proof {
            use_type_invariant(&self);
        }
        self.year
    }

    /// The day of the year: 1 to 365, or 366 in a leap year.
    pub fn ordinal(self) -> (r: u16)
        ensures
            r == self.spec_ordinal(),
            1 <= r <= year_length(self.spec_year()),
    {
        proof {
            use_type_invariant(&self);
        }
        self.ordinal
    }

    /// The month and the day of the month.
    pub fn month_day(self) -> (r: (u8, u8))
        ensures
            r.0 == self.spec_month(),
            r.1 == self.spec_day(),
            1 <= r.0 <= 12,
            1 <= r.1 <= month_length(self.spec_year(), self.spec_month()),
    {
        proof {
            use_type_invariant(&self);
        }
        let leap = is_leap_year(self.year);
        let month = month_of_ordinal_exec(leap, self.ordinal);
        proof {
            lemma_month_lengths(self.year as int, month as int);
        }
        let day = self.ordinal - days_before_month_exec(leap, month);
        (month, day as u8)
    }

    /// The month: 1 to 12.
    pub fn month(self) -> (r: u8)
        ensures
            r == self.spec_month(),
            1 <= r <= 12,
    {
        self.month_day().0
    }

    /// The day of the month: 1 to 31.
    pub fn day(self) -> (r: u8)
        ensures
            r == self.spec_day(),
            1 <= r <= 31,
    {
        self.month_day().1
    }

    /// The day of the week.
    pub fn weekday(self) -> (r: Weekday)
        ensures
            r == self.spec_weekday(),
    {
        let days = self.days_since_epoch();
        // Shift by a multiple of 7 so that the remainder is taken of a non-negative number.
        let shifted = days + 3 + 7 * 5_400_000;
        proof {
            vstd::arithmetic::div_mod::lemma_mod_multiples_vanish(5_400_000, days + 3, 7);
        }
        weekday_after_monday((shifted % 7) as u8)
    }

    /// The ISO 8601 week-based year and week number (1 to 53).
    pub fn iso_year_week(self) -> (r: (i32, u8))
        ensures
            r.0 == self.spec_iso_year(),
            r.1 == self.spec_iso_week(),
            1 <= r.1 <= 53,
            r.1 <= iso_weeks_in_year(r.0 as int),
    {
        proof {
            use_type_invariant(&self);
            lemma_iso_weeks_in_year(self.year as int);
            lemma_iso_weeks_in_year(self.year as int - 1);
        }
        let weekday = self.weekday();
        let year = self.year;
        let ordinal = self.ordinal;
        proof {
            lemma_iso_week_formula(year as int, ordinal as int, weekday.days_from_monday());
        }
        let week = ((ordinal + 10 - weekday.iso_weekday_number() as u16) / 7) as u8;
        if week == 0 {
            (year - 1, weeks_in_year(year - 1))
        } else if week == 53 && weeks_in_year(year) == 52 {
            (year + 1, 1)
        } else {
            (year, week)
        }
    }

    /// The ISO 8601 week number: 1 to 53.
    pub fn week(self) -> (r: u8)
        ensures
            r == self.spec_iso_week(),
            1 <= r <= 53,
    {
        self.iso_year_week().1
    }

    /// The week number where week 1 begins on the year's first Sunday: 0 to 53.
    pub fn sunday_based_week(self) -> (r: u8)
        ensures
            r == self.spec_sunday_based_week(),
            r <= 53,
    {
        proof {
            use_type_invariant(&self);
        }
        let weekday = self.weekday();
        let ordinal = self.ordinal;
        let w = weekday.number_days_from_sunday();
        proof {
            let dfm = weekday.days_from_monday();
            lemma_weekday_in_year(self.year as int, ordinal as int, dfm);
            lemma_first_weekday_formula(
                ordinal as int,
                jan1_days_from_monday(self.year as int),
                dfm,
                6,
            );
        }
        ((ordinal as i32 - w as i32 + 6) / 7) as u8
    }

    /// The week number where week 1 begins on the year's first Monday: 0 to 53.
    pub fn monday_based_week(self) -> (r: u8)
        ensures
            r == self.spec_monday_based_week(),
            r <= 53,
    {
        proof {
            use_type_invariant(&self);
        }
        let weekday = self.weekday();
        let ordinal = self.ordinal;
        let w = weekday.number_days_from_monday();
        proof {
            let dfm = weekday.days_from_monday();
            lemma_weekday_in_year(self.year as int, ordinal as int, dfm);
            lemma_first_weekday_formula(
                ordinal as int,
                jan1_days_from_monday(self.year as int),
                dfm,
                0,
            );
        }
        ((ordinal as i32 - w as i32 + 6) / 7) as u8
    }
}

/// Every date's month is 1 to 12 and its day lies within that month's
/// Gregorian length; its day of the year counts the days of all earlier
/// months of its year and then its day of the month.
pub proof fn lemma_month_and_day(d: Date)
    requires
        d.inv(),
    ensures
        1 <= d.spec_month() <= 12,
        1 <= d.spec_day() <= gregorian_month_days(is_leap(d.spec_year()), d.spec_month()),
        d.spec_ordinal() == gregorian_days_before_month(is_leap(d.spec_year()), d.spec_month())
            + d.spec_day(),
{
    d.lemma_valid();
    let y = d.spec_year();
    let m = d.spec_month();
    lemma_days_before_next_year(y);
    lemma_month_lengths(y, 12);
    lemma_month_lengths(y, m);
    lemma_gregorian_months(y, m, d.spec_day());
}

/// The number of the first `ordinal` days of `year` that fall on `weekday`,
/// the `k`-th day being `days_before_year(year) + k - 1` days after
/// 1970-01-01, a Thursday.
pub open spec fn weekday_count(year: int, ordinal: int, weekday: Weekday) -> int
    decreases ordinal,
{
    if ordinal <= 0 {
        0
    } else {
        weekday_count(year, ordinal - 1, weekday) + if Weekday::after_monday(
            days_before_year(year) + ordinal - 1 + 3,
        ) == weekday {
            1int
        } else {
            0int
        }
    }
}

/// Counting the days of a year that fall on the weekday `t` days after
/// Monday: through day `ordinal` there are `(ordinal - first) / 7 + 1`, where
/// `first` is the first such day.
proof fn lemma_weekday_count(year: int, ordinal: int, t: int)
    requires
        0 <= ordinal,
        0 <= t < 7,
    ensures
        weekday_count(year, ordinal, Weekday::after_monday(t)) == (ordinal - (1 + (t + 7
            - jan1_days_from_monday(year)) % 7)) / 7 + 1,
    decreases ordinal,
{
    let dby = days_before_year(year);
    let j = jan1_days_from_monday(year);
    vstd::arithmetic::div_mod::lemma_fundamental_div_mod(dby + 3, 7);
    vstd::arithmetic::div_mod::lemma_mod_bound(dby + 3, 7);
    let first = 1 + (t + 7 - j) % 7;
    assert(1 <= first <= 7);
    if ordinal > 0 {
        lemma_weekday_count(year, ordinal - 1, t);
        let x = ordinal - first;
        crate::calendar::lemma_div_step(x, 7);
        let n = dby + ordinal - 1 + 3;
        // The day's weekday is `t` exactly when it lies a whole number of weeks after `first`.
        let q = (dby + 3) / 7;
        let k = if t + 7 - j >= 7 {
            1int
        } else {
            0int
        };
        assert(x == (n - t) + 7 * (k - q - 1));
        vstd::arithmetic::div_mod::lemma_mod_multiples_vanish(k - q - 1, n - t, 7);
        vstd::arithmetic::div_mod::lemma_fundamental_div_mod(n, 7);
        vstd::arithmetic::div_mod::lemma_mod_bound(n, 7);
        vstd::arithmetic::div_mod::lemma_fundamental_div_mod(n - t, 7);
        vstd::arithmetic::div_mod::lemma_mod_bound(n - t, 7);
        assert((n - t) % 7 == 0 <==> n % 7 == t) by {
            if n % 7 == t {
                vstd::arithmetic::div_mod::lemma_fundamental_div_mod_converse(n - t, 7, n / 7, 0);
            }
            if (n - t) % 7 == 0 {
                vstd::arithmetic::div_mod::lemma_fundamental_div_mod_converse(n, 7, (n - t) / 7, t);
            }
        }
        assert((Weekday::after_monday(n) == Weekday::after_monday(t)) <==> n % 7 == t);
    } else {
        assert(-7 <= -first < 0);
    }
}

/// Week numbers count weekdays: a date's Monday-based week is the number of
/// Mondays of its year up to and including it, and its Sunday-based week the
/// number of Sundays; so the year's first Monday (or Sunday) starts week 1,
/// whatever weekday January 1 is.
pub proof fn lemma_week_numbers_count(d: Date)
    requires
        d.inv(),
    ensures
        d.spec_weekday() == Weekday::after_monday(
            days_before_year(d.spec_year()) + d.spec_ordinal() - 1 + 3,
        ),
        d.spec_monday_based_week() == weekday_count(
            d.spec_year(),
            d.spec_ordinal(),
            Weekday::Monday,
        ),
        d.spec_sunday_based_week() == weekday_count(
            d.spec_year(),
            d.spec_ordinal(),
            Weekday::Sunday,
        ),
{
    d.lemma_valid();
    lemma_weekday_count(d.spec_year(), d.spec_ordinal(), 0);
    lemma_weekday_count(d.spec_year(), d.spec_ordinal(), 6);
    let j = jan1_days_from_monday(d.spec_year());
    vstd::arithmetic::div_mod::lemma_mod_bound(days_before_year(d.spec_year()) + 3, 7);
    assert((13 - j) % 7 == (6 - j) % 7);
    assert(Weekday::after_monday(0) == Weekday::Monday);
    assert(Weekday::after_monday(6) == Weekday::Sunday);
}

/// A year in `MIN_YEAR..=bound` whose days hold day `n`, searching down from `bound`.
proof fn year_containing_day(n: int, bound: int) -> (year: int)
    requires
        MIN_YEAR <= bound <= MAX_YEAR,
        days_before_year(MIN_YEAR as int) <= n < days_before_year(bound + 1),
    ensures
        MIN_YEAR <= year <= bound,
        days_before_year(year) <= n < days_before_year(year + 1),
    decreases bound - MIN_YEAR,
{
    if days_before_year(bound) <= n {
        bound
    } else {
        year_containing_day(n, bound - 1)
    }
}

/// The day `n` that lies `week - 1` weeks and `weekday` days after the
/// start of ISO week 1 of `year` has ISO year `year`, ISO week `week` and
/// that weekday, whichever calendar year `calendar_year` it falls in.
proof fn lemma_iso_week_position(year: int, calendar_year: int, n: int, week: int, weekday: Weekday)
    requires
        1 <= week <= iso_weeks_in_year(year),
        n == iso_week_one_start(year) + 7 * (week - 1) + weekday.days_from_monday(),
        days_before_year(calendar_year) <= n < days_before_year(calendar_year + 1),
    ensures
        ({
            let iso_year = if n >= iso_week_one_start(calendar_year + 1) {
                calendar_year + 1
            } else if n < iso_week_one_start(calendar_year) {
                calendar_year - 1
            } else {
                calendar_year
            };
            &&& iso_year == year
            &&& (n - iso_week_one_start(year)) / 7 + 1 == week
            &&& Weekday::after_monday(n + 3) == weekday
        }),
{
    lemma_iso_weeks_in_year(year);
    lemma_iso_weeks_in_year(year - 1);
    lemma_iso_weeks_in_year(year + 1);
    weekday.lemma_after_monday_inverse();
    let w = weekday.days_from_monday();
    vstd::arithmetic::div_mod::lemma_fundamental_div_mod_converse(
        n - iso_week_one_start(year),
        7,
        week - 1,
        w,
    );
    // The first day of ISO week 1 is a Monday.
    let jan4 = days_before_year(year) + 3;
    vstd::arithmetic::div_mod::lemma_fundamental_div_mod(jan4 + 3, 7);
    let k = (jan4 + 3) / 7;
    assert(n + 3 == 7 * (k + week - 1) + w);
    vstd::arithmetic::div_mod::lemma_fundamental_div_mod_converse(n + 3, 7, k + week - 1, w);
    // The calendar year of `n` is within one of `year`.
    if calendar_year < year - 1 {
        crate::calendar::lemma_days_before_year_monotone(calendar_year + 1, year - 1);
        lemma_days_before_next_year(year - 1);
    }
    if calendar_year > year + 1 {
        lemma_days_before_next_year(year + 1);
        crate::calendar::lemma_days_before_year_monotone(year + 2, calendar_year);
    }
    lemma_days_before_next_year(year);
    lemma_days_before_next_year(year - 1);
    lemma_days_before_next_year(year + 1);
}

/// The day of the week of the `ordinal`-th day of `year`, counted from
/// Monday = 0, is `(days_before_year(year) + ordinal + 2) % 7`.
pub(crate) proof fn lemma_weekday_in_year(year: int, ordinal: int, w: int)
    requires
        w == (days_before_year(year) + ordinal - 1 + 3) % 7,
    ensures
        w == (jan1_days_from_monday(year) + ordinal - 1) % 7,
        0 <= w < 7,
{
    vstd::arithmetic::div_mod::lemma_add_mod_noop(days_before_year(year) + 3, ordinal - 1, 7);
    vstd::arithmetic::div_mod::lemma_mod_twice(ordinal - 1, 7);
    vstd::arithmetic::div_mod::lemma_add_mod_noop(jan1_days_from_monday(year), ordinal - 1, 7);
    vstd::arithmetic::div_mod::lemma_mod_bound(days_before_year(year) + ordinal + 2, 7);
}

/// The ISO week formula `(ordinal + 9 - w) / 7`, where `w` is the day of the
/// week counted from Monday = 0, gives the week within the ISO year that
/// shares the calendar year, with 0 for the days before its week 1.
proof fn lemma_iso_week_formula(year: int, ordinal: int, w: int)
    requires
        1 <= ordinal <= year_length(year),
        w == (days_before_year(year) + ordinal - 1 + 3) % 7,
    ensures
        ({
            let k = (ordinal + 9 - w) / 7;
            let d = days_before_year(year) + ordinal - 1;
            &&& 0 <= k <= 53
            &&& k == 0 ==> d < iso_week_one_start(year) && iso_week_one_start(year - 1) <= d
                && (d - iso_week_one_start(year - 1)) / 7 + 1 == iso_weeks_in_year(year - 1)
            &&& k >= 1 ==> iso_week_one_start(year) <= d && (d - iso_week_one_start(year)) / 7 + 1
                == k
            &&& (k == 53 && iso_weeks_in_year(year) == 52) ==> iso_week_one_start(year + 1) <= d
                && (d - iso_week_one_start(year + 1)) / 7 + 1 == 1
            &&& (k >= 1 && !(k == 53 && iso_weeks_in_year(year) == 52)) ==> d
                < iso_week_one_start(year + 1)
        }),
{
    let dby = days_before_year(year);
    let j = (dby + 6) % 7;
    let d = dby + ordinal - 1;
    let x = ordinal - 4 + j;
    vstd::arithmetic::div_mod::lemma_mod_bound(dby + 6, 7);
    vstd::arithmetic::div_mod::lemma_mod_bound(dby + ordinal + 2, 7);
    assert(d - iso_week_one_start(year) == x);
    // w is x modulo 7
    assert(w == x % 7) by {
        vstd::arithmetic::div_mod::lemma_add_mod_noop(dby + 6, ordinal - 4, 7);
        vstd::arithmetic::div_mod::lemma_mod_twice(dby + 6, 7);
        vstd::arithmetic::div_mod::lemma_add_mod_noop(j, ordinal - 4, 7);
        vstd::arithmetic::div_mod::lemma_mod_twice(ordinal - 4, 7);
    }
    vstd::arithmetic::div_mod::lemma_fundamental_div_mod(x, 7);
    vstd::arithmetic::div_mod::lemma_mod_bound(x, 7);
    let q = x / 7;
    assert(ordinal + 9 - w == 7 * (q + 1) + (6 - j));
    vstd::arithmetic::div_mod::lemma_fundamental_div_mod_converse(ordinal + 9 - w, 7, q + 1, 6 - j);
    lemma_iso_weeks_in_year(year - 1);
    lemma_iso_weeks_in_year(year);
    lemma_days_before_next_year(year);
    if q + 1 == 0 {
        let y0 = iso_weeks_in_year(year - 1);
        let e = d - iso_week_one_start(year - 1);
        assert(e == 7 * (y0 - 1) + (x + 7));
        vstd::arithmetic::div_mod::lemma_fundamental_div_mod_converse(e, 7, y0 - 1, x + 7);
    }
    if q + 1 == 53 && iso_weeks_in_year(year) == 52 {
        let e = d - iso_week_one_start(year + 1);
        assert(e == 7 * 0 + (x - 364));
        vstd::arithmetic::div_mod::lemma_fundamental_div_mod_converse(e, 7, 0, x - 364);
    }
}

/// Counting weeks from the first day of the year that falls on weekday `t`
/// (counted from Monday = 0): the `ordinal`-th day, whose weekday is `w`,
/// lies in week `(ordinal - since + 6) / 7`, where `since` counts the days
/// back to the last day that was weekday `t`.
pub(crate) proof fn lemma_first_weekday_formula(ordinal: int, jan1: int, w: int, t: int)
    requires
        1 <= ordinal <= 366,
        0 <= jan1 < 7,
        0 <= t < 7,
        w == (jan1 + ordinal - 1) % 7,
    ensures
        ({
            let since = (w + 7 - t) % 7;
            let first = 1 + (t + 7 - jan1) % 7;
            &&& (ordinal - since + 6) / 7 == (ordinal - first) / 7 + 1
            &&& 0 <= (ordinal - since + 6) / 7 <= 53
            &&& first + 7 * ((ordinal - first) / 7) + since == ordinal
        }),
{
    let since = (w + 7 - t) % 7;
    let c = (t + 7 - jan1) % 7;
    let first = 1 + c;
    let z = ordinal - first;
    let a = (jan1 + ordinal - 1) / 7;
    let b = (t + 7 - jan1) / 7;
    let e = (w + 7 - t) / 7;
    vstd::arithmetic::div_mod::lemma_fundamental_div_mod(jan1 + ordinal - 1, 7);
    vstd::arithmetic::div_mod::lemma_fundamental_div_mod(t + 7 - jan1, 7);
    vstd::arithmetic::div_mod::lemma_fundamental_div_mod(w + 7 - t, 7);
    vstd::arithmetic::div_mod::lemma_mod_bound(w + 7 - t, 7);
    vstd::arithmetic::div_mod::lemma_mod_bound(t + 7 - jan1, 7);
    // Both `since` and `z` count back to the last day that was weekday `t`.
    let q = a + b + e - 2;
    assert(z == 7 * q + since);
    assert(ordinal - since + 6 == 7 * (q + 1) + c);
    vstd::arithmetic::div_mod::lemma_fundamental_div_mod_converse(z, 7, q, since);
    vstd::arithmetic::div_mod::lemma_fundamental_div_mod_converse(ordinal - since + 6, 7, q + 1, c);
}

/// The number of days in `month` (1-12) of `year`.
pub fn days_in_month(year: i32, month: u8) -> (r: u8)
    requires
        1 <= month <= 12,
    ensures
        r == month_length(year as int, month as int),
{
    if month == 2 {
        if is_leap_year(year) {
            29
        } else {
            28
        }
    } else if month == 4 || month == 6 || month == 9 || month == 11 {
        30
    } else {
        31
    }
}

/// Days of the year before the first day of `month` (1-12).
fn days_before_month_exec(leap: bool, month: u8) -> (r: u16)
    requires
        1 <= month <= 12,
    ensures
        r == days_before_month(leap, month as int),
{
    let base: u16 = if month == 1 {
        0
    } else if month == 2 {
        31
    } else if month == 3 {
        59
    } else if month == 4 {
        90
    } else if month == 5 {
        120
    } else if month == 6 {
        151
    } else if month == 7 {
        181
    } else if month == 8 {
        212
    } else if month == 9 {
        243
    } else if month == 10 {
        273
    } else if month == 11 {
        304
    } else {
        334
    };
    if leap && month > 2 {
        base + 1
    } else {
        base
    }
}

/// The month in which the `ordinal`-th day of a year falls.
fn month_of_ordinal_exec(leap: bool, ordinal: u16) -> (r: u8)
    requires
        1 <= ordinal <= days_before_month(leap, 13),
    ensures
        r == month_of_ordinal(leap, ordinal as int),
        1 <= r <= 12,
        days_before_month(leap, r as int) < ordinal <= days_before_month(leap, r + 1),
{
    let mut month: u8 = 12;
    while month > 1 && ordinal <= days_before_month_exec(leap, month)
        invariant
            1 <= month <= 12,
            ordinal <= days_before_month(leap, month + 1),
            forall|m: int| month < m <= 12 ==> ordinal <= #[trigger] days_before_month(leap, m),
        decreases month,
    {
        month = month - 1;
    }
    month
}

/// The weekday `n` (0-6) days after a Monday.
pub(crate) fn weekday_after_monday(n: u8) -> (r: Weekday)
    requires
        n < 7,
    ensures
        r == Weekday::after_monday(n as int),
{
    if n == 0 {
        Weekday::Monday
    } else if n == 1 {
        Weekday::Tuesday
    } else if n == 2 {
        Weekday::Wednesday
    } else if n == 3 {
        Weekday::Thursday
    } else if n == 4 {
        Weekday::Friday
    } else if n == 5 {
        Weekday::Saturday
    } else {
        Weekday::Sunday
    }
}

} // verus!

//! Turning the components read from text into a date and a time.
use vstd::prelude::*;

use crate::calendar::{
    days_before_month, days_before_year, days_before_year_exec, days_in_year, is_leap,
    iso_week_one_start, iso_weeks_in_year, jan1_days_from_monday, valid_calendar_date,
    valid_ordinal_date, MAX_DAY, MAX_YEAR, MIN_DAY, MIN_YEAR,
};
use crate::date::Date;
use crate::error::{Component, ComponentRangeError};
use crate::format::hour12;
use crate::parse::{parse_items, parse_spec, ParseError, ParsedItems};
use crate::primitive_date_time::PrimitiveDateTime;
use crate::time::{valid_time, Time};
use crate::weekday::Weekday;

verus! {

/// The error for a component out of range.
pub open spec fn out_of_range(c: Component) -> ParseError {
    ParseError::ComponentOutOfRange(ComponentRangeError { component: c })
}

/// The day count of the `ordinal`-th day of `year`, or why there is none.
pub open spec fn yo_outcome(year: int, ordinal: int) -> Result<int, ParseError> {
    if valid_ordinal_date(year, ordinal) {
        Ok(days_before_year(year) + ordinal - 1)
    } else if MIN_YEAR <= year <= MAX_YEAR {
        Err(out_of_range(Component::Ordinal))
    } else {
        Err(out_of_range(Component::Year))
    }
}

/// The day count of a calendar date, or why there is none.
pub open spec fn ymd_outcome(year: int, month: int, day: int) -> Result<int, ParseError> {
    if valid_calendar_date(year, month, day) {
        Ok(days_before_year(year) + days_before_month(is_leap(year), month) + day - 1)
    } else if !(MIN_YEAR <= year <= MAX_YEAR) {
        Err(out_of_range(Component::Year))
    } else if !(1 <= month <= 12) {
        Err(out_of_range(Component::Month))
    } else {
        Err(out_of_range(Component::Day))
    }
}

/// The day count of an ISO week date, or why there is none.
pub open spec fn iso_outcome(year: int, week: int, weekday: Weekday) -> Result<int, ParseError> {
    let n = iso_week_one_start(year) + 7 * (week - 1) + weekday.days_from_monday();
    let valid_week = 1 <= week <= iso_weeks_in_year(year);
    let valid_year = MIN_YEAR <= year <= MAX_YEAR && MIN_DAY <= n <= MAX_DAY;
    if valid_week && valid_year {
        Ok(n)
    } else if MIN_YEAR <= year <= MAX_YEAR && !valid_week {
        Err(out_of_range(Component::Week))
    } else {
        Err(out_of_range(Component::Year))
    }
}

/// The day of the week counted from Sunday = 0.
pub open spec fn days_from_sunday(w: Weekday) -> int {
    (w.days_from_monday() + 1) % 7
}

/// The day of `year` that falls on `weekday` in week `week`, when week 1
/// starts on the year's first Sunday (the days before it are week 0).
pub open spec fn sunday_week_ordinal(year: int, week: int, weekday: Weekday) -> int {
    let first_sunday = 1 + (6 - jan1_days_from_monday(year)) % 7;
    first_sunday + 7 * (week - 1) + days_from_sunday(weekday)
}

/// The day of `year` that falls on `weekday` in week `week`, when week 1
/// starts on the year's first Monday (the days before it are week 0).
pub open spec fn monday_week_ordinal(year: int, week: int, weekday: Weekday) -> int {
    let first_monday = 1 + (7 - jan1_days_from_monday(year)) % 7;
    first_monday + 7 * (week - 1) + weekday.days_from_monday()
}

/// The day count of the date that the components give, or why there is
/// none. The first of these that the components hold decides: year, month
/// and day; year and day of the year; ISO year, ISO week and weekday; year,
/// Sunday-based week and weekday; year, Monday-based week and weekday.
pub open spec fn date_of_items(p: ParsedItems) -> Result<int, ParseError> {
    if p.year is Some && p.month is Some && p.day is Some {
        ymd_outcome(p.year->0 as int, p.month->0 as int, p.day->0 as int)
    } else if p.year is Some && p.ordinal is Some {
        yo_outcome(p.year->0 as int, p.ordinal->0 as int)
    } else if p.iso_year is Some && p.iso_week is Some && p.weekday is Some {
        iso_outcome(p.iso_year->0 as int, p.iso_week->0 as int, p.weekday->0)
    } else if p.year is Some && p.sunday_week is Some && p.weekday is Some {
        let year = p.year->0 as int;
        yo_outcome(year, sunday_week_ordinal(year, p.sunday_week->0 as int, p.weekday->0))
    } else if p.year is Some && p.monday_week is Some && p.weekday is Some {
        let year = p.year->0 as int;
        yo_outcome(year, monday_week_ordinal(year, p.monday_week->0 as int, p.weekday->0))
    } else {
        Err(ParseError::InsufficientInformation)
    }
}

/// The hour on the 24-hour clock that the components give, or why there is
/// none: the 24-hour clock hour, else a 12-hour clock hour (1 to 12) with
/// `am` or `pm`.
pub open spec fn hour_of_items(p: ParsedItems) -> Result<int, ParseError> {
    if p.hour_24 is Some {
        Ok(p.hour_24->0 as int)
    } else if p.hour_12 is Some && p.pm is Some {
        let h = p.hour_12->0 as int;
        if 1 <= h <= 12 {
            Ok(h % 12 + if p.pm->0 {
                12int
            } else {
                0int
            })
        } else {
            Err(out_of_range(Component::Hour))
        }
    } else {
        Err(ParseError::InsufficientInformation)
    }
}

/// The value of an optional component, zero when absent.
pub open spec fn or_zero(v: Option<u8>) -> int {
    match v {
        Some(x) => x as int,
        None => 0,
    }
}

/// The hour, minute, second and nanosecond that the components give (those
/// after the hour default to zero), or why there are none.
pub open spec fn time_of_items(p: ParsedItems) -> Result<(int, int, int, int), ParseError> {
    match hour_of_items(p) {
        Ok(h) => {
            let m = or_zero(p.minute);
            let s = or_zero(p.second);
            let n = match p.nanosecond {
                Some(x) => x as int,
                None => 0,
            };
            if valid_time(h, m, s, n) {
                Ok((h, m, s, n))
            } else if h >= 24 {
                Err(out_of_range(Component::Hour))
            } else if m >= 60 {
                Err(out_of_range(Component::Minute))
            } else if s >= 60 {
                Err(out_of_range(Component::Second))
            } else {
                Err(out_of_range(Component::Nanosecond))
            }
        },
        Err(e) => Err(e),
    }
}

/// Whether `r` is what the components give: the date-time they name, or the
/// error of the date if it has one, else that of the time.
pub open spec fn outcome_matches(r: Result<PrimitiveDateTime, ParseError>, p: ParsedItems) -> bool {
    match (date_of_items(p), time_of_items(p)) {
        (Err(e), _) => r == Err::<PrimitiveDateTime, ParseError>(e),
        (Ok(_), Err(e)) => r == Err::<PrimitiveDateTime, ParseError>(e),
        (Ok(n), Ok((h, m, s, ns))) => match r {
            Ok(dt) => dt.spec_date().days() == n && dt.spec_time().spec_hour() == h
                && dt.spec_time().spec_minute() == m && dt.spec_time().spec_second() == s
                && dt.spec_time().spec_nanosecond() == ns,
            Err(_) => false,
        },
    }
}

/// Maps a range error of a constructor to a parse error.
fn range_error(e: ComponentRangeError) -> (r: ParseError)
    ensures
        r == out_of_range(e.component),
{
    ParseError::ComponentOutOfRange(e)
}

/// The date of the day of `year` that `ordinal` (maybe out of range) names.
fn date_from_yo(year: i32, ordinal: i64) -> (r: Result<Date, ParseError>)
    ensures
        match r {
            Ok(d) => yo_outcome(year as int, ordinal as int) == Ok::<int, ParseError>(d.days()),
            Err(e) => yo_outcome(year as int, ordinal as int) == Err::<int, ParseError>(e),
        },
{
    if year < MIN_YEAR || year > MAX_YEAR {
        return Err(range_error(ComponentRangeError { component: Component::Year }));
    }
    if ordinal < 1 || ordinal > days_in_year(year) as i64 {
        return Err(range_error(ComponentRangeError { component: Component::Ordinal }));
    }
    match Date::try_from_yo(year, ordinal as u16) {
        Ok(d) => Ok(d),
        Err(e) => Err(range_error(e)),
    }
}

/// The day of the week of January 1 of `year`, counted from Monday = 0.
fn jan1_days_from_monday_exec(year: i32) -> (r: i64)
    ensures
        r == jan1_days_from_monday(year as int),
        0 <= r < 7,
{
    crate::arith::rem_floor(days_before_year_exec(year) + 3, 7)
}

/// The day count from 1970-01-01 of the date the components give, as
/// `date_of_items` says.
fn date_from_items(p: ParsedItems) -> (r: Result<Date, ParseError>)
    ensures
        match r {
            Ok(d) => date_of_items(p) == Ok::<int, ParseError>(d.days()),
            Err(e) => date_of_items(p) == Err::<int, ParseError>(e),
        },
{
    match (p.year, p.month, p.day, p.ordinal) {
        (Some(year), Some(month), Some(day), _) => match Date::try_from_ymd(year, month, day) {
            Ok(d) => Ok(d),
            Err(e) => Err(range_error(e)),
        },
        (Some(year), _, _, Some(ordinal)) => date_from_yo(year, ordinal as i64),
        _ => match (p.iso_year, p.iso_week, p.weekday) {
            (Some(year), Some(week), Some(weekday)) => match Date::try_from_iso_ywd(
                year,
                week,
                weekday,
            ) {
                Ok(d) => Ok(d),
                Err(e) => Err(range_error(e)),
            },
            _ => match (p.year, p.sunday_week, p.monday_week, p.weekday) {
                (Some(year), Some(week), _, Some(weekday)) => {
                    if year < MIN_YEAR || year > MAX_YEAR {
                        return Err(range_error(ComponentRangeError { component: Component::Year }));
                    }
                    let jan1 = jan1_days_from_monday_exec(year);
                    let from_sunday = (weekday.number_days_from_monday() as i64 + 1) % 7;
                    let ordinal = 1 + (6 - jan1) % 7 + 7 * (week as i64 - 1) + from_sunday;
                    date_from_yo(year, ordinal)
                },
                (Some(year), _, Some(week), Some(weekday)) => {
                    if year < MIN_YEAR || year > MAX_YEAR {
                        return Err(range_error(ComponentRangeError { component: Component::Year }));
                    }
                    let jan1 = jan1_days_from_monday_exec(year);
                    let ordinal = 1 + (7 - jan1) % 7 + 7 * (week as i64 - 1)
                        + weekday.number_days_from_monday() as i64;
                    date_from_yo(year, ordinal)
                },
                _ => Err(ParseError::InsufficientInformation),
            },
        },
    }
}

/// The time the components give, as `time_of_items` says.
fn time_from_items(p: ParsedItems) -> (r: Result<Time, ParseError>)
    ensures
        match r {
            Ok(t) => time_of_items(p) == Ok::<(int, int, int, int), ParseError>(
                (t.spec_hour(), t.spec_minute(), t.spec_second(), t.spec_nanosecond()),
            ),
            Err(e) => time_of_items(p) == Err::<(int, int, int, int), ParseError>(e),
        },
{
    let hour: u8 = match (p.hour_24, p.hour_12, p.pm) {
        (Some(h), _, _) => h,
        (None, Some(h), Some(pm)) => {
            if h < 1 || h > 12 {
                return Err(range_error(ComponentRangeError { component: Component::Hour }));
            }
            h % 12 + if pm {
                12
            } else {
                0
            }
        },
        _ => {
            return Err(ParseError::InsufficientInformation);
        },
    };
    let minute = match p.minute {
        Some(m) => m,
        None => 0,
    };
    let second = match p.second {
        Some(s) => s,
        None => 0,
    };
    let nanosecond = match p.nanosecond {
        Some(n) => n,
        None => 0,
    };
    match Time::try_from_hms_nano(hour, minute, second, nanosecond) {
        Ok(t) => Ok(t),
        Err(e) => Err(range_error(e)),
    }
}

impl PrimitiveDateTime {
    /// The date-time that the components read from text give: the date as
    /// `date_of_items` says, the time as `time_of_items` says, or the first
    /// error of the two.
    pub fn try_from_parsed_items(items: ParsedItems) -> (r: Result<PrimitiveDateTime, ParseError>)
        ensures
            outcome_matches(r, items),
    {
        let date = match date_from_items(items) {
            Ok(d) => d,
            Err(e) => {
                return Err(e);
            },
        };
        let time = match time_from_items(items) {
            Ok(t) => t,
            Err(e) => {
                return Err(e);
            },
        };
        Ok(PrimitiveDateTime::new(date, time))
    }

    /// Reads a date-time from `s` with the format description `format`.
    pub fn parse(s: &str, format: &str) -> (r: Result<PrimitiveDateTime, ParseError>)
        ensures
            match parse_spec(s@, format@) {
                Ok(p) => outcome_matches(r, p),
                Err(e) => r == Err::<PrimitiveDateTime, ParseError>(e),
            },
    {
        match parse_items(s, format) {
            Ok(items) => PrimitiveDateTime::try_from_parsed_items(items),
            Err(e) => Err(e),
        }
    }
}

/// The weekday of a day numbered `n` from 1970-01-01 lies `(n + 3) % 7`
/// days after Monday.
proof fn lemma_days_from_monday_after(n: int)
    ensures
        Weekday::after_monday(n).days_from_monday() == n % 7,
{
}

/// A date's own components name the date again: its year, month and day;
/// its year and day of the year; its ISO year, ISO week and weekday (when
/// the ISO year is one a date can have); and its year, Sunday-based or
/// Monday-based week and weekday.
pub proof fn lemma_date_components_round_trip(d: Date)
    requires
        d.inv(),
    ensures
        ymd_outcome(d.spec_year(), d.spec_month(), d.spec_day()) == Ok::<int, ParseError>(d.days()),
        yo_outcome(d.spec_year(), d.spec_ordinal()) == Ok::<int, ParseError>(d.days()),
        MIN_YEAR <= d.spec_iso_year() <= MAX_YEAR ==> iso_outcome(
            d.spec_iso_year(),
            d.spec_iso_week(),
            d.spec_weekday(),
        ) == Ok::<int, ParseError>(d.days()),
        yo_outcome(
            d.spec_year(),
            sunday_week_ordinal(d.spec_year(), d.spec_sunday_based_week(), d.spec_weekday()),
        ) == Ok::<int, ParseError>(d.days()),
        yo_outcome(
            d.spec_year(),
            monday_week_ordinal(d.spec_year(), d.spec_monday_based_week(), d.spec_weekday()),
        ) == Ok::<int, ParseError>(d.days()),
{
    d.lemma_valid();
    lemma_ymd_round_trip(d);
    lemma_week_round_trip(d);
    if MIN_YEAR <= d.spec_iso_year() <= MAX_YEAR {
        lemma_iso_round_trip(d);
    }
}

/// A date's year, month and day name the date again.
pub(crate) proof fn lemma_ymd_round_trip(d: Date)
    requires
        d.inv(),
    ensures
        ymd_outcome(d.spec_year(), d.spec_month(), d.spec_day()) == Ok::<int, ParseError>(d.days()),
        yo_outcome(d.spec_year(), d.spec_ordinal()) == Ok::<int, ParseError>(d.days()),
{
    d.lemma_valid();
    let y = d.spec_year();
    crate::calendar::lemma_month_lengths(y, d.spec_month());
}

/// A date's year, Sunday-based or Monday-based week and weekday name the
/// date again.
proof fn lemma_week_round_trip(d: Date)
    requires
        d.inv(),
    ensures
        sunday_week_ordinal(d.spec_year(), d.spec_sunday_based_week(), d.spec_weekday())
            == d.spec_ordinal(),
        monday_week_ordinal(d.spec_year(), d.spec_monday_based_week(), d.spec_weekday())
            == d.spec_ordinal(),
{
    d.lemma_valid();
    let y = d.spec_year();
    let o = d.spec_ordinal();
    lemma_days_from_monday_after(d.days() + 3);
    let w = d.spec_weekday().days_from_monday();
    crate::date::lemma_weekday_in_year(y, o, w);
    let jan1 = jan1_days_from_monday(y);
    vstd::arithmetic::div_mod::lemma_mod_bound(days_before_year(y) + 3, 7);
    crate::date::lemma_first_weekday_formula(o, jan1, w, 6);
    crate::date::lemma_first_weekday_formula(o, jan1, w, 0);
    assert((13 - jan1) % 7 == (6 - jan1) % 7);
    assert((w + 7 - 6) % 7 == days_from_sunday(d.spec_weekday()));
    assert((w + 7 - 0) % 7 == w);
}

/// A date's ISO year, ISO week and weekday name the date again, when the ISO
/// year is one a date can have.
proof fn lemma_iso_round_trip(d: Date)
    requires
        d.inv(),
        MIN_YEAR <= d.spec_iso_year() <= MAX_YEAR,
    ensures
        iso_outcome(d.spec_iso_year(), d.spec_iso_week(), d.spec_weekday()) == Ok::<int, ParseError>(
            d.days(),
        ),
{
    d.lemma_valid();
    crate::calendar::lemma_days_before_next_year(d.spec_year());
    lemma_iso_position(d.spec_year(), d.days());
    lemma_days_from_monday_after(d.days() + 3);
}

/// A day `n` of calendar year `year` lies in the ISO week `(n - start) / 7 + 1`
/// of its ISO year, where `start` is the first day of that year's week 1, and
/// lies `(n - start) % 7` days after that week's Monday.
proof fn lemma_iso_position(year: int, n: int)
    requires
        days_before_year(year) <= n < days_before_year(year + 1),
    ensures
        ({
            let iso_year = if n >= iso_week_one_start(year + 1) {
                year + 1
            } else if n < iso_week_one_start(year) {
                year - 1
            } else {
                year
            };
            let start = iso_week_one_start(iso_year);
            let week = (n - start) / 7 + 1;
            &&& 1 <= week <= iso_weeks_in_year(iso_year)
            &&& start + 7 * (week - 1) + (n + 3) % 7 == n
        }),
{
    crate::calendar::lemma_iso_weeks_in_year(year - 1);
    crate::calendar::lemma_iso_weeks_in_year(year);
    crate::calendar::lemma_iso_weeks_in_year(year + 1);
    crate::calendar::lemma_days_before_next_year(year - 1);
    crate::calendar::lemma_days_before_next_year(year);
    crate::calendar::lemma_days_before_next_year(year + 1);
    let iso_year = if n >= iso_week_one_start(year + 1) {
        year + 1
    } else if n < iso_week_one_start(year) {
        year - 1
    } else {
        year
    };
    let start = iso_week_one_start(iso_year);
    let jan4 = days_before_year(iso_year) + 3;
    // The first day of ISO week 1 is a Monday: `start + 3` is a multiple of 7.
    vstd::arithmetic::div_mod::lemma_fundamental_div_mod(jan4 + 3, 7);
    let k = (jan4 + 3) / 7;
    assert(start + 3 == 7 * k);
    let x = n - start;
    vstd::arithmetic::div_mod::lemma_fundamental_div_mod(x, 7);
    vstd::arithmetic::div_mod::lemma_mod_bound(x, 7);
    let q = x / 7;
    let r = x % 7;
    assert(n + 3 == 7 * (k + q) + r);
    vstd::arithmetic::div_mod::lemma_fundamental_div_mod_converse(n + 3, 7, k + q, r);
}

/// The components that a date-time's getters give (year, month, day, hour,
/// minute, second and nanosecond), collected as a reader would collect them.
pub open spec fn components_of(dt: PrimitiveDateTime) -> ParsedItems {
    let date = dt.spec_date();
    let time = dt.spec_time();
    ParsedItems {
        year: Some(date.spec_year() as i32),
        month: Some(date.spec_month() as u8),
        day: Some(date.spec_day() as u8),
        hour_24: Some(time.spec_hour() as u8),
        minute: Some(time.spec_minute() as u8),
        second: Some(time.spec_second() as u8),
        nanosecond: Some(time.spec_nanosecond() as u32),
        ..ParsedItems::empty_spec()
    }
}

/// The same components with the hour on the 12-hour clock, with am or pm.
pub open spec fn components_of_12h(dt: PrimitiveDateTime) -> ParsedItems {
    let hour = dt.spec_time().spec_hour();
    ParsedItems {
        hour_24: None,
        hour_12: Some(hour12(hour) as u8),
        pm: Some(hour >= 12),
        ..components_of(dt)
    }
}

/// Assembling a date-time from its own components gives that date-time
/// back, with the hour on the 24-hour clock or on the 12-hour clock with am
/// or pm: the date-time is a result that the assembly may give, and any
/// valid result it may give is that date-time.
pub proof fn lemma_components_round_trip(dt: PrimitiveDateTime, r: Result<PrimitiveDateTime, ParseError>)
    requires
        dt.inv(),
        match r {
            Ok(x) => x.inv(),
            Err(_) => true,
        },
        outcome_matches(r, components_of(dt)) || outcome_matches(r, components_of_12h(dt)),
    ensures
        outcome_matches(Ok(dt), components_of(dt)),
        outcome_matches(Ok(dt), components_of_12h(dt)),
        r == Ok::<PrimitiveDateTime, ParseError>(dt),
{
    dt.lemma_valid();
    let date = dt.spec_date();
    let time = dt.spec_time();
    date.lemma_valid();
    time.lemma_valid();
    lemma_ymd_round_trip(date);
    assert(date_of_items(components_of(dt)) == Ok::<int, ParseError>(date.days()));
    assert(date_of_items(components_of_12h(dt)) == Ok::<int, ParseError>(date.days()));
    if outcome_matches(r, components_of(dt)) {
        lemma_outcome_unique(dt, r, components_of(dt));
    } else {
        lemma_outcome_unique(dt, r, components_of_12h(dt));
    }
}

/// Components that give a date-time give no other valid date-time.
pub(crate) proof fn lemma_outcome_unique(
    dt: PrimitiveDateTime,
    r: Result<PrimitiveDateTime, ParseError>,
    p: ParsedItems,
)
    requires
        dt.inv(),
        match r {
            Ok(x) => x.inv(),
            Err(_) => true,
        },
        outcome_matches(Ok(dt), p),
        outcome_matches(r, p),
    ensures
        r == Ok::<PrimitiveDateTime, ParseError>(dt),
{
    dt.lemma_valid();
    match r {
        Ok(x) => {
            x.lemma_valid();
            Time::lemma_nanos_injective(x.spec_time(), dt.spec_time());
            Date::lemma_days_injective(x.spec_date(), dt.spec_date());
            PrimitiveDateTime::lemma_nanos_injective(x, dt);
        },
        Err(_) => {},
    }
}

} // verus!

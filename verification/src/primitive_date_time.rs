//! A calendar date combined with a clock time, without an offset.
use vstd::prelude::*;

use crate::arith::{lemma_trunc_div, trunc_div, trunc_rem};
use crate::calendar::{MAX_DAY, MIN_DAY};
use crate::date::Date;
use crate::duration::{duration_fits, lemma_small_fits, Duration, NANOS_PER_DAY, NANOS_PER_SECOND};
use crate::std_duration::StdDuration;
use crate::time::Time;
use crate::weekday::Weekday;

verus! {

/// Whether a point `nanos` nanoseconds after 1970-01-01T00:00 lies on a day
/// that a `Date` can hold.
pub open spec fn instant_fits(nanos: int) -> bool {
    MIN_DAY * NANOS_PER_DAY <= nanos < (MAX_DAY + 1) * NANOS_PER_DAY
}

/// A calendar date combined with a clock time.
#[derive(Clone, Copy, Debug, PartialEq, Eq, Hash, Ord, Structural)]
pub struct PrimitiveDateTime {
    date: Date,
    time: Time,
}

impl PrimitiveDateTime {
    /// The date and the time are both valid.
    #[verifier::type_invariant]
    pub closed spec fn inv(self) -> bool {
        self.date.inv() && self.time.inv()
    }

    /// The date component.
    pub closed spec fn spec_date(self) -> Date {
        self.date
    }

    /// The time component.
    pub closed spec fn spec_time(self) -> Time {
        self.time
    }

    /// The point in time as nanoseconds after 1970-01-01T00:00.
    pub open spec fn nanos(self) -> int {
        self.spec_date().days() * NANOS_PER_DAY + self.spec_time().nanos()
    }

    /// The date-time `nanos` nanoseconds after 1970-01-01T00:00, for
    /// `instant_fits(nanos)`.
    pub closed spec fn from_nanos_spec(nanos: int) -> PrimitiveDateTime {
        PrimitiveDateTime {
            date: Date::from_days_spec(nanos / NANOS_PER_DAY as int),
            time: Time::from_nanos_spec(nanos % NANOS_PER_DAY as int),
        }
    }

    /// What the invariant of a date-time says of its components and its point in time.
    pub proof fn lemma_valid(self)
        requires
            self.inv(),
        ensures
            self.spec_date().inv(),
            self.spec_time().inv(),
            instant_fits(self.nanos()),
            0 <= self.spec_time().nanos() < NANOS_PER_DAY,
            MIN_DAY <= self.spec_date().days() <= MAX_DAY,
    {
        self.date.lemma_valid();
        self.time.lemma_valid();
    }

    /// `from_nanos_spec(nanos)` is a valid date-time at `nanos`.
    pub proof fn lemma_from_nanos_spec(nanos: int)
        requires
            instant_fits(nanos),
        ensures
            PrimitiveDateTime::from_nanos_spec(nanos).inv(),
            PrimitiveDateTime::from_nanos_spec(nanos).nanos() == nanos,
    {
        let nd = NANOS_PER_DAY as int;
        vstd::arithmetic::div_mod::lemma_fundamental_div_mod(nanos, nd);
        vstd::arithmetic::div_mod::lemma_mod_bound(nanos, nd);
        Date::lemma_from_days_spec(nanos / nd);
        Time::lemma_from_nanos_spec(nanos % nd);
    }

    /// Two date-times at the same point in time are the same date-time.
    pub proof fn lemma_nanos_injective(a: PrimitiveDateTime, b: PrimitiveDateTime)
        requires
            a.inv(),
            b.inv(),
            a.nanos() == b.nanos(),
        ensures
            a == b,
    {
        a.lemma_valid();
        b.lemma_valid();
        let nd = NANOS_PER_DAY as int;
        vstd::arithmetic::div_mod::lemma_fundamental_div_mod_converse(
            a.nanos(),
            nd,
            a.date.days(),
            a.time.nanos(),
        );
        vstd::arithmetic::div_mod::lemma_fundamental_div_mod_converse(
            b.nanos(),
            nd,
            b.date.days(),
            b.time.nanos(),
        );
        Date::lemma_days_injective(a.date, b.date);
        Time::lemma_nanos_injective(a.time, b.time);
    }

    /// The date-time of the given date and time.
    pub fn new(date: Date, time: Time) -> (r: PrimitiveDateTime)
        ensures
            r.spec_date() == date,
            r.spec_time() == time,
    {
        proof {
            use_type_invariant(&date);
            use_type_invariant(&time);
        }
        PrimitiveDateTime { date, time }
    }

    /// Midnight at the start of 1970-01-01.
    pub fn unix_epoch() -> (r: PrimitiveDateTime)
        ensures
            r.nanos() == 0,
            r.spec_date().spec_year() == 1970,
            r.spec_date().spec_ordinal() == 1,
            r.spec_time().nanos() == 0,
    {
        proof {
            crate::calendar::lemma_day_bounds();
        }
        let date = Date::from_days(0);
        proof {
            use_type_invariant(&date);
            date.lemma_valid();
            crate::calendar::lemma_days_before_year_monotone(1970, date.spec_year());
            crate::calendar::lemma_days_before_year_monotone(date.spec_year(), 1970);
            if date.spec_year() < 1970 {
                crate::calendar::lemma_days_before_next_year(date.spec_year());
                crate::calendar::lemma_days_before_year_monotone(date.spec_year() + 1, 1970);
            } else if date.spec_year() > 1970 {
                crate::calendar::lemma_days_before_year_monotone(1970, date.spec_year());
            }
        }
        PrimitiveDateTime::new(date, Time::midnight())
    }

    /// The date-time `duration` after this one.
    pub fn add_duration(self, duration: Duration) -> (r: PrimitiveDateTime)
        requires
            instant_fits(self.nanos() + duration@),
        ensures
            r.nanos() == self.nanos() + duration@,
            r == PrimitiveDateTime::from_nanos_spec(self.nanos() + duration@),
    {
        proof {
            use_type_invariant(&self);
            self.lemma_valid();
            lemma_trunc_div(duration@, NANOS_PER_DAY as int);
        }
        let day = NANOS_PER_DAY as i128;
        let since_midnight = self.time.nanoseconds_since_midnight() as i64;
        let within_day = (duration.whole_nanoseconds() % day) as i64;
        let nanos = since_midnight + within_day;
        let modifier: i64 = if nanos < 0 {
            -1
        } else if nanos >= NANOS_PER_DAY {
            1
        } else {
            0
        };
        let ghost total = self.nanos() + duration@;
        let ghost q = trunc_div(duration@, NANOS_PER_DAY as int);
        proof {
            let nd = NANOS_PER_DAY as int;
            let t = self.time.nanos();
            let r = nanos - modifier * nd;
            assert(total == (self.date.days() + q + modifier) * nd + r);
            assert(0 <= r < nd);
            vstd::arithmetic::div_mod::lemma_fundamental_div_mod_converse(
                total,
                nd,
                self.date.days() + q + modifier,
                r,
            );
            vstd::arithmetic::div_mod::lemma_fundamental_div_mod_converse(
                t + duration@,
                nd,
                q + modifier,
                r,
            );
        }
        let days = self.date.days_since_epoch() + duration.whole_days() + modifier;
        let date = Date::from_days(days);
        let time = self.time.add_duration(duration);
        let r = PrimitiveDateTime::new(date, time);
        proof {
            PrimitiveDateTime::lemma_from_nanos_spec(total);
            use_type_invariant(&r);
            PrimitiveDateTime::lemma_nanos_injective(r, PrimitiveDateTime::from_nanos_spec(total));
        }
        r
    }

    /// The date-time `duration` before this one.
    pub fn sub_duration(self, duration: Duration) -> (r: PrimitiveDateTime)
        requires
            instant_fits(self.nanos() - duration@),
        ensures
            r.nanos() == self.nanos() - duration@,
            r == PrimitiveDateTime::from_nanos_spec(self.nanos() - duration@),
    {
        proof {
            use_type_invariant(&self);
            self.lemma_valid();
            lemma_small_fits(-duration@);
            Duration::lemma_from_nanos_spec(-duration@);
        }
        let negated = core::ops::Neg::neg(duration);
        self.add_duration(negated)
    }

    /// The date-time `duration` after this one, for an unsigned span.
    pub fn add_std_duration(self, duration: StdDuration) -> (r: PrimitiveDateTime)
        requires
            instant_fits(self.nanos() + duration@),
        ensures
            r.nanos() == self.nanos() + duration@,
            r == PrimitiveDateTime::from_nanos_spec(self.nanos() + duration@),
    {
        proof {
            use_type_invariant(&self);
            self.lemma_valid();
            lemma_small_fits(duration@);
        }
        self.add_duration(Duration::from_nanos_i128(duration.as_nanos() as i128))
    }

    /// The date-time `duration` before this one, for an unsigned span.
    pub fn sub_std_duration(self, duration: StdDuration) -> (r: PrimitiveDateTime)
        requires
            instant_fits(self.nanos() - duration@),
        ensures
            r.nanos() == self.nanos() - duration@,
            r == PrimitiveDateTime::from_nanos_spec(self.nanos() - duration@),
    {
        proof {
            use_type_invariant(&self);
            self.lemma_valid();
            lemma_small_fits(duration@);
        }
        self.sub_duration(Duration::from_nanos_i128(duration.as_nanos() as i128))
    }

    /// Moves this date-time `duration` later.
    pub fn add_assign_duration(&mut self, duration: Duration)
        requires
            instant_fits(old(self).nanos() + duration@),
        ensures
            final(self).nanos() == old(self).nanos() + duration@,
            *final(self) == PrimitiveDateTime::from_nanos_spec(old(self).nanos() + duration@),
    {
        *self = self.add_duration(duration);
    }

    /// Moves this date-time `duration` later, for an unsigned span.
    pub fn add_assign_std_duration(&mut self, duration: StdDuration)
        requires
            instant_fits(old(self).nanos() + duration@),
        ensures
            final(self).nanos() == old(self).nanos() + duration@,
            *final(self) == PrimitiveDateTime::from_nanos_spec(old(self).nanos() + duration@),
    {
        *self = self.add_std_duration(duration);
    }

    /// Moves this date-time `duration` earlier.
    pub fn sub_assign_duration(&mut self, duration: Duration)
        requires
            instant_fits(old(self).nanos() - duration@),
        ensures
            final(self).nanos() == old(self).nanos() - duration@,
            *final(self) == PrimitiveDateTime::from_nanos_spec(old(self).nanos() - duration@),
    {
        *self = self.sub_duration(duration);
    }

    /// Moves this date-time `duration` earlier, for an unsigned span.
    pub fn sub_assign_std_duration(&mut self, duration: StdDuration)
        requires
            instant_fits(old(self).nanos() - duration@),
        ensures
            final(self).nanos() == old(self).nanos() - duration@,
            *final(self) == PrimitiveDateTime::from_nanos_spec(old(self).nanos() - duration@),
    {
        *self = self.sub_std_duration(duration);
    }

    /// The span from `rhs` to this date-time: negative when `rhs` is later.
    pub fn duration_since(self, rhs: PrimitiveDateTime) -> (d: Duration)
        ensures
            d@ == self.nanos() - rhs.nanos(),
            d == Duration::from_nanos_spec(self.nanos() - rhs.nanos()),
    {
        proof {
            use_type_invariant(&self);
            use_type_invariant(&rhs);
            self.lemma_valid();
            rhs.lemma_valid();
            lemma_small_fits(self.nanos() - rhs.nanos());
        }
        let days = (self.date.days_since_epoch() - rhs.date.days_since_epoch()) as i128;
        let within = self.time.nanoseconds_since_midnight() as i128
            - rhs.time.nanoseconds_since_midnight() as i128;
        assert(-100_000_000 * NANOS_PER_DAY <= days * NANOS_PER_DAY <= 100_000_000 * NANOS_PER_DAY);
        Duration::from_nanos_i128(days * NANOS_PER_DAY as i128 + within)
    }

    /// The date-time `timestamp` seconds after 1970-01-01T00:00.
    pub fn from_unix_timestamp(timestamp: i64) -> (r: PrimitiveDateTime)
        requires
            instant_fits(timestamp * NANOS_PER_SECOND),
        ensures
            r.nanos() == timestamp * NANOS_PER_SECOND,
            r == PrimitiveDateTime::from_nanos_spec(timestamp * NANOS_PER_SECOND),
    {
        PrimitiveDateTime::unix_epoch().add_duration(Duration::seconds(timestamp))
    }

    /// The Unix timestamp: whole seconds since 1970-01-01T00:00, rounded toward zero.
    pub fn timestamp(self) -> (r: i64)
        ensures
            r == trunc_div(self.nanos(), NANOS_PER_SECOND as int),
    {
        self.duration_since(PrimitiveDateTime::unix_epoch()).whole_seconds()
    }

    /// Comparing the year, then the day of the year, hour, minute, second and
    /// nanosecond orders date-times as their points in time are ordered.
    pub proof fn lemma_lexicographic_order(a: PrimitiveDateTime, b: PrimitiveDateTime)
        requires
            a.inv(),
            b.inv(),
        ensures
            ({
                let (da, db) = (a.spec_date(), b.spec_date());
                let (ta, tb) = (a.spec_time(), b.spec_time());
                &&& da.spec_year() < db.spec_year() ==> a.nanos() < b.nanos()
                &&& da.spec_year() > db.spec_year() ==> a.nanos() > b.nanos()
                &&& da.spec_year() == db.spec_year() ==> {
                    &&& da.spec_ordinal() < db.spec_ordinal() ==> a.nanos() < b.nanos()
                    &&& da.spec_ordinal() > db.spec_ordinal() ==> a.nanos() > b.nanos()
                    &&& da.spec_ordinal() == db.spec_ordinal() ==> {
                        &&& ta.spec_hour() < tb.spec_hour() ==> a.nanos() < b.nanos()
                        &&& ta.spec_hour() > tb.spec_hour() ==> a.nanos() > b.nanos()
                        &&& ta.spec_hour() == tb.spec_hour() ==> {
                            &&& ta.spec_minute() < tb.spec_minute() ==> a.nanos() < b.nanos()
                            &&& ta.spec_minute() > tb.spec_minute() ==> a.nanos() > b.nanos()
                            &&& ta.spec_minute() == tb.spec_minute() ==> {
                                &&& ta.spec_second() < tb.spec_second() ==> a.nanos()
                                    < b.nanos()
                                &&& ta.spec_second() > tb.spec_second() ==> a.nanos()
                                    > b.nanos()
                                &&& ta.spec_second() == tb.spec_second() ==> {
                                    &&& ta.spec_nanosecond() < tb.spec_nanosecond()
                                        ==> a.nanos() < b.nanos()
                                    &&& ta.spec_nanosecond() > tb.spec_nanosecond()
                                        ==> a.nanos() > b.nanos()
                                    &&& ta.spec_nanosecond() == tb.spec_nanosecond()
                                        ==> a.nanos() == b.nanos()
                                }
                            }
                        }
                    }
                }
            }),
    {
        a.lemma_valid();
        b.lemma_valid();
        a.date.lemma_valid();
        b.date.lemma_valid();
        a.time.lemma_valid();
        b.time.lemma_valid();
        let (ya, yb) = (a.date.spec_year(), b.date.spec_year());
        if ya < yb {
            crate::calendar::lemma_days_before_next_year(ya);
            crate::calendar::lemma_days_before_year_monotone(ya + 1, yb);
        }
        if yb < ya {
            crate::calendar::lemma_days_before_next_year(yb);
            crate::calendar::lemma_days_before_year_monotone(yb + 1, ya);
        }
    }

    /// Adding a duration and then subtracting it again gives back the
    /// date-time one started from.
    pub proof fn lemma_add_then_sub(datetime: PrimitiveDateTime, duration: Duration)
        requires
            datetime.inv(),
            instant_fits(datetime.nanos() + duration@),
        ensures
            PrimitiveDateTime::from_nanos_spec(
                PrimitiveDateTime::from_nanos_spec(datetime.nanos() + duration@).nanos()
                    - duration@,
            ) == datetime,
    {
        PrimitiveDateTime::lemma_from_nanos_spec(datetime.nanos() + duration@);
        datetime.lemma_valid();
        PrimitiveDateTime::lemma_from_nanos_spec(datetime.nanos());
        PrimitiveDateTime::lemma_nanos_injective(
            datetime,
            PrimitiveDateTime::from_nanos_spec(datetime.nanos()),
        );
    }

    /// The difference `a - b` is the duration that, added to `b`, gives `a`.
    pub proof fn lemma_difference_then_add(a: PrimitiveDateTime, b: PrimitiveDateTime)
        requires
            a.inv(),
            b.inv(),
        ensures
            duration_fits(a.nanos() - b.nanos()),
            Duration::from_nanos_spec(a.nanos() - b.nanos())@ == a.nanos() - b.nanos(),
            instant_fits(b.nanos() + Duration::from_nanos_spec(a.nanos() - b.nanos())@),
            PrimitiveDateTime::from_nanos_spec(
                b.nanos() + Duration::from_nanos_spec(a.nanos() - b.nanos())@,
            ) == a,
    {
        a.lemma_valid();
        b.lemma_valid();
        lemma_small_fits(a.nanos() - b.nanos());
        Duration::lemma_from_nanos_spec(a.nanos() - b.nanos());
        PrimitiveDateTime::lemma_from_nanos_spec(a.nanos());
        PrimitiveDateTime::lemma_nanos_injective(a, PrimitiveDateTime::from_nanos_spec(a.nanos()));
    }

    /// Adding a duration and then taking the difference from the start gives
    /// back the duration.
    pub proof fn lemma_add_then_difference(datetime: PrimitiveDateTime, duration: Duration)
        requires
            datetime.inv(),
            duration.inv(),
            instant_fits(datetime.nanos() + duration@),
        ensures
            Duration::from_nanos_spec(
                PrimitiveDateTime::from_nanos_spec(datetime.nanos() + duration@).nanos()
                    - datetime.nanos(),
            ) == duration,
    {
        PrimitiveDateTime::lemma_from_nanos_spec(datetime.nanos() + duration@);
        duration.lemma_fits();
        Duration::lemma_from_nanos_spec(duration@);
        Duration::lemma_view_injective(duration, Duration::from_nanos_spec(duration@));
    }

    /// Swapping the operands of a difference negates it.
    pub proof fn lemma_difference_antisymmetric(a: PrimitiveDateTime, b: PrimitiveDateTime)
        requires
            a.inv(),
            b.inv(),
        ensures
            Duration::from_nanos_spec(a.nanos() - b.nanos())@ == -Duration::from_nanos_spec(
                b.nanos() - a.nanos(),
            )@,
    {
        a.lemma_valid();
        b.lemma_valid();
        lemma_small_fits(a.nanos() - b.nanos());
        lemma_small_fits(b.nanos() - a.nanos());
        Duration::lemma_from_nanos_spec(a.nanos() - b.nanos());
        Duration::lemma_from_nanos_spec(b.nanos() - a.nanos());
    }

    /// Two date-times compare equal exactly when they are the same date-time.
    pub proof fn lemma_order_agrees_with_equality(a: PrimitiveDateTime, b: PrimitiveDateTime)
        requires
            a.inv(),
            b.inv(),
        ensures
            (a.nanos() == b.nanos()) <==> (a == b),
    {
        if a.nanos() == b.nanos() {
            PrimitiveDateTime::lemma_nanos_injective(a, b);
        }
    }

    /// The date-time built from a Unix timestamp gives that timestamp back.
    pub proof fn lemma_timestamp_round_trip(timestamp: i64)
        requires
            instant_fits(timestamp * NANOS_PER_SECOND),
        ensures
            trunc_div(
                PrimitiveDateTime::from_nanos_spec(timestamp * NANOS_PER_SECOND).nanos(),
                NANOS_PER_SECOND as int,
            ) == timestamp,
    {
        PrimitiveDateTime::lemma_from_nanos_spec(timestamp * NANOS_PER_SECOND);
        crate::arith::lemma_trunc_div_unique(
            timestamp * NANOS_PER_SECOND,
            NANOS_PER_SECOND as int,
            timestamp as int,
            0,
        );
    }

    /// The date component.
    pub fn date(self) -> (r: Date)
        ensures
            r == self.spec_date(),
    {
        self.date
    }

    /// The time component.
    pub fn time(self) -> (r: Time)
        ensures
            r == self.spec_time(),
    {
        self.time
    }

    /// The year of the date.
    pub fn year(self) -> (r: i32)
        ensures
            r == self.spec_date().spec_year(),
    {
        self.date.year()
    }

    /// The month of the date: 1 to 12.
    pub fn month(self) -> (r: u8)
        ensures
            r == self.spec_date().spec_month(),
            1 <= r <= 12,
    {
        self.date.month()
    }

    /// The day of the month: 1 to 31.
    pub fn day(self) -> (r: u8)
        ensures
            r == self.spec_date().spec_day(),
            1 <= r <= 31,
    {
        self.date.day()
    }

    /// The month and the day of the month.
    pub fn month_day(self) -> (r: (u8, u8))
        ensures
            r.0 == self.spec_date().spec_month(),
            r.1 == self.spec_date().spec_day(),
            1 <= r.0 <= 12,
            1 <= r.1 <= 31,
    {
        self.date.month_day()
    }

    /// The day of the year: 1 to 366.
    pub fn ordinal(self) -> (r: u16)
        ensures
            r == self.spec_date().spec_ordinal(),
            1 <= r <= 366,
    {
        self.date.ordinal()
    }

    /// The ISO 8601 week-based year and week number.
    pub fn iso_year_week(self) -> (r: (i32, u8))
        ensures
            r.0 == self.spec_date().spec_iso_year(),
            r.1 == self.spec_date().spec_iso_week(),
            1 <= r.1 <= 53,
    {
        self.date.iso_year_week()
    }

    /// The ISO 8601 week number: 1 to 53.
    pub fn week(self) -> (r: u8)
        ensures
            r == self.spec_date().spec_iso_week(),
            1 <= r <= 53,
    {
        self.date.week()
    }

    /// The week number where week 1 begins on the year's first Sunday: 0 to 53.
    pub fn sunday_based_week(self) -> (r: u8)
        ensures
            r == self.spec_date().spec_sunday_based_week(),
            r <= 53,
    {
        self.date.sunday_based_week()
    }

    /// The week number where week 1 begins on the year's first Monday: 0 to 53.
    pub fn monday_based_week(self) -> (r: u8)
        ensures
            r == self.spec_date().spec_monday_based_week(),
            r <= 53,
    {
        self.date.monday_based_week()
    }

    /// The day of the week.
    pub fn weekday(self) -> (r: Weekday)
        ensures
            r == self.spec_date().spec_weekday(),
    {
        self.date.weekday()
    }

    /// The clock hour: 0 to 23.
    pub fn hour(self) -> (r: u8)
        ensures
            r == self.spec_time().spec_hour(),
            r < 24,
    {
        self.time.hour()
    }

    /// The minute within the hour: 0 to 59.
    pub fn minute(self) -> (r: u8)
        ensures
            r == self.spec_time().spec_minute(),
            r < 60,
    {
        self.time.minute()
    }

    /// The second within the minute: 0 to 59.
    pub fn second(self) -> (r: u8)
        ensures
            r == self.spec_time().spec_second(),
            r < 60,
    {
        self.time.second()
    }

    /// The millisecond within the second: 0 to 999.
    pub fn millisecond(self) -> (r: u16)
        ensures
            r == self.spec_time().spec_nanosecond() / 1_000_000,
            r < 1_000,
    {
        self.time.millisecond()
    }

    /// The microsecond within the second: 0 to 999,999.
    pub fn microsecond(self) -> (r: u32)
        ensures
            r == self.spec_time().spec_nanosecond() / 1_000,
            r < 1_000_000,
    {
        self.time.microsecond()
    }

    /// The nanosecond within the second: 0 to 999,999,999.
    pub fn nanosecond(self) -> (r: u32)
        ensures
            r == self.spec_time().spec_nanosecond(),
            r < NANOS_PER_SECOND,
    {
        self.time.nanosecond()
    }
}

impl core::ops::Add<Duration> for PrimitiveDateTime {
    type Output = PrimitiveDateTime;

    /// The date-time `duration` later.
    fn add(self, duration: Duration) -> (r: PrimitiveDateTime) {
        self.add_duration(duration)
    }
}

impl vstd::std_specs::ops::AddSpecImpl<Duration> for PrimitiveDateTime {
    open spec fn obeys_add_spec() -> bool {
        true
    }

    open spec fn add_req(self, duration: Duration) -> bool {
        instant_fits(self.nanos() + duration@)
    }

    open spec fn add_spec(self, duration: Duration) -> PrimitiveDateTime {
        PrimitiveDateTime::from_nanos_spec(self.nanos() + duration@)
    }
}

impl core::ops::Sub<Duration> for PrimitiveDateTime {
    type Output = PrimitiveDateTime;

    /// The date-time `duration` earlier.
    fn sub(self, duration: Duration) -> (r: PrimitiveDateTime) {
        self.sub_duration(duration)
    }
}

impl vstd::std_specs::ops::SubSpecImpl<Duration> for PrimitiveDateTime {
    open spec fn obeys_sub_spec() -> bool {
        true
    }

    open spec fn sub_req(self, duration: Duration) -> bool {
        instant_fits(self.nanos() - duration@)
    }

    open spec fn sub_spec(self, duration: Duration) -> PrimitiveDateTime {
        PrimitiveDateTime::from_nanos_spec(self.nanos() - duration@)
    }
}

impl core::ops::Add<StdDuration> for PrimitiveDateTime {
    type Output = PrimitiveDateTime;

    /// The date-time `duration` later.
    fn add(self, duration: StdDuration) -> (r: PrimitiveDateTime) {
        self.add_std_duration(duration)
    }
}

impl vstd::std_specs::ops::AddSpecImpl<StdDuration> for PrimitiveDateTime {
    open spec fn obeys_add_spec() -> bool {
        true
    }

    open spec fn add_req(self, duration: StdDuration) -> bool {
        instant_fits(self.nanos() + duration@)
    }

    open spec fn add_spec(self, duration: StdDuration) -> PrimitiveDateTime {
        PrimitiveDateTime::from_nanos_spec(self.nanos() + duration@)
    }
}

impl core::ops::Sub<StdDuration> for PrimitiveDateTime {
    type Output = PrimitiveDateTime;

    /// The date-time `duration` earlier.
    fn sub(self, duration: StdDuration) -> (r: PrimitiveDateTime) {
        self.sub_std_duration(duration)
    }
}

impl vstd::std_specs::ops::SubSpecImpl<StdDuration> for PrimitiveDateTime {
    open spec fn obeys_sub_spec() -> bool {
        true
    }

    open spec fn sub_req(self, duration: StdDuration) -> bool {
        instant_fits(self.nanos() - duration@)
    }

    open spec fn sub_spec(self, duration: StdDuration) -> PrimitiveDateTime {
        PrimitiveDateTime::from_nanos_spec(self.nanos() - duration@)
    }
}

impl core::ops::Sub<PrimitiveDateTime> for PrimitiveDateTime {
    type Output = Duration;

    /// The span from `rhs` to this date-time.
    fn sub(self, rhs: PrimitiveDateTime) -> (d: Duration) {
        self.duration_since(rhs)
    }
}

impl vstd::std_specs::ops::SubSpecImpl<PrimitiveDateTime> for PrimitiveDateTime {
    open spec fn obeys_sub_spec() -> bool {
        true
    }

    open spec fn sub_req(self, rhs: PrimitiveDateTime) -> bool {
        true
    }

    open spec fn sub_spec(self, rhs: PrimitiveDateTime) -> Duration {
        Duration::from_nanos_spec(self.nanos() - rhs.nanos())
    }
}

impl Date {
    /// This date at midnight.
    pub fn midnight(self) -> (r: PrimitiveDateTime)
        ensures
            r.spec_date() == self,
            r.spec_time().nanos() == 0,
    {
        PrimitiveDateTime::new(self, Time::midnight())
    }

    /// This date at the given time.
    pub fn with_time(self, time: Time) -> (r: PrimitiveDateTime)
        ensures
            r.spec_date() == self,
            r.spec_time() == time,
    {
        PrimitiveDateTime::new(self, time)
    }
}

} // verus!
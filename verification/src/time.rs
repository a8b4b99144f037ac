//! Clock times within a day, with nanosecond precision.
use vstd::prelude::*;

use crate::arith::trunc_rem;
use crate::duration::{Duration, NANOS_PER_DAY, NANOS_PER_SECOND};
use crate::error::{Component, ComponentRangeError};

verus! {

/// A clock time: hour, minute, second and nanosecond within the second.
#[derive(Clone, Copy, Debug, PartialEq, Eq, Hash, PartialOrd, Ord, Structural)]
pub struct Time {
    hour: u8,
    minute: u8,
    second: u8,
    nanosecond: u32,
}

/// Whether the components name a clock time.
pub open spec fn valid_time(hour: int, minute: int, second: int, nanosecond: int) -> bool {
    &&& 0 <= hour < 24
    &&& 0 <= minute < 60
    &&& 0 <= second < 60
    &&& 0 <= nanosecond < NANOS_PER_SECOND
}

/// Nanoseconds since midnight of the clock time with the given components.
pub open spec fn nanos_of(hour: int, minute: int, second: int, nanosecond: int) -> int {
    ((hour * 60 + minute) * 60 + second) * NANOS_PER_SECOND + nanosecond
}

impl Time {
    /// Every `Time` names a clock time.
    #[verifier::type_invariant]
    pub closed spec fn inv(self) -> bool {
        valid_time(self.hour as int, self.minute as int, self.second as int, self.nanosecond as int)
    }

    /// The clock hour.
    pub closed spec fn spec_hour(self) -> int {
        self.hour as int
    }

    /// The minute within the hour.
    pub closed spec fn spec_minute(self) -> int {
        self.minute as int
    }

    /// The second within the minute.
    pub closed spec fn spec_second(self) -> int {
        self.second as int
    }

    /// The nanosecond within the second.
    pub closed spec fn spec_nanosecond(self) -> int {
        self.nanosecond as int
    }

    /// The time as nanoseconds since midnight.
    pub open spec fn nanos(self) -> int {
        nanos_of(self.spec_hour(), self.spec_minute(), self.spec_second(), self.spec_nanosecond())
    }

    /// What the invariant of a time says of its components and its position in the day.
    pub proof fn lemma_valid(self)
        requires
            self.inv(),
        ensures
            valid_time(
                self.spec_hour(),
                self.spec_minute(),
                self.spec_second(),
                self.spec_nanosecond(),
            ),
            0 <= self.nanos() < NANOS_PER_DAY,
    {
        lemma_nanos_of_bounds(self.hour as int, self.minute as int, self.second as int, self.nanosecond as int);
    }

    /// The clock time `nanos` nanoseconds after midnight.
    pub closed spec fn from_nanos_spec(nanos: int) -> Time {
        Time {
            hour: (nanos / (3_600 * NANOS_PER_SECOND)) as u8,
            minute: (nanos / (60 * NANOS_PER_SECOND) % 60) as u8,
            second: (nanos / (NANOS_PER_SECOND as int) % 60) as u8,
            nanosecond: (nanos % (NANOS_PER_SECOND as int)) as u32,
        }
    }

    /// `from_nanos_spec` is the inverse of `nanos` within a day.
    pub proof fn lemma_from_nanos_spec(nanos: int)
        requires
            0 <= nanos < NANOS_PER_DAY,
        ensures
            Time::from_nanos_spec(nanos).inv(),
            Time::from_nanos_spec(nanos).nanos() == nanos,
    {
        lemma_split_nanos(nanos);
    }

    /// Two times at the same point of the day are the same time.
    pub proof fn lemma_nanos_injective(t1: Time, t2: Time)
        requires
            t1.inv(),
            t2.inv(),
            t1.nanos() == t2.nanos(),
        ensures
            t1 == t2,
    {
        lemma_nanos_of_unique(
            t1.hour as int,
            t1.minute as int,
            t1.second as int,
            t1.nanosecond as int,
        );
        lemma_nanos_of_unique(
            t2.hour as int,
            t2.minute as int,
            t2.second as int,
            t2.nanosecond as int,
        );
    }

    /// The time `nanos` nanoseconds after midnight.
    pub fn from_nanos_since_midnight(nanos: u64) -> (t: Time)
        requires
            nanos < NANOS_PER_DAY,
        ensures
            t.nanos() == nanos,
            t == Time::from_nanos_spec(nanos as int),
    {
        proof {
            lemma_split_nanos(nanos as int);
        }
        Time {
            hour: (nanos / (3_600 * NANOS_PER_SECOND as u64)) as u8,
            minute: (nanos / (60 * NANOS_PER_SECOND as u64) % 60) as u8,
            second: (nanos / NANOS_PER_SECOND as u64 % 60) as u8,
            nanosecond: (nanos % NANOS_PER_SECOND as u64) as u32,
        }
    }

    /// Nanoseconds since midnight.
    pub fn nanoseconds_since_midnight(self) -> (r: u64)
        ensures
            r == self.nanos(),
            r < NANOS_PER_DAY,
    {
        proof {
            use_type_invariant(&self);
            self.lemma_valid();
        }
        ((self.hour as u64 * 60 + self.minute as u64) * 60 + self.second as u64)
            * NANOS_PER_SECOND as u64 + self.nanosecond as u64
    }

    /// Midnight: 00:00:00.
    pub fn midnight() -> (t: Time)
        ensures
            t.nanos() == 0,
            t.spec_hour() == 0,
            t.spec_minute() == 0,
            t.spec_second() == 0,
            t.spec_nanosecond() == 0,
    {
        Time { hour: 0, minute: 0, second: 0, nanosecond: 0 }
    }

    /// The time with the given hour, minute, second and nanosecond.
    pub fn try_from_hms_nano(hour: u8, minute: u8, second: u8, nanosecond: u32) -> (r: Result<
        Time,
        ComponentRangeError,
    >)
        ensures
            match r {
                Ok(t) => valid_time(hour as int, minute as int, second as int, nanosecond as int)
                    && t.spec_hour() == hour && t.spec_minute() == minute && t.spec_second()
                    == second && t.spec_nanosecond() == nanosecond,
                Err(e) => !valid_time(hour as int, minute as int, second as int, nanosecond as int)
                    && e.component == (if hour >= 24 {
                    Component::Hour
                } else if minute >= 60 {
                    Component::Minute
                } else if second >= 60 {
                    Component::Second
                } else {
                    Component::Nanosecond
                }),
            },
    {
        if hour >= 24 {
            return Err(ComponentRangeError { component: Component::Hour });
        }
        if minute >= 60 {
            return Err(ComponentRangeError { component: Component::Minute });
        }
        if second >= 60 {
            return Err(ComponentRangeError { component: Component::Second });
        }
        if nanosecond >= NANOS_PER_SECOND as u32 {
            return Err(ComponentRangeError { component: Component::Nanosecond });
        }
        Ok(Time { hour, minute, second, nanosecond })
    }

    /// The time with the given hour, minute and second.
    pub fn try_from_hms(hour: u8, minute: u8, second: u8) -> (r: Result<Time, ComponentRangeError>)
        ensures
            match r {
                Ok(t) => valid_time(hour as int, minute as int, second as int, 0) && t.spec_hour()
                    == hour && t.spec_minute() == minute && t.spec_second() == second
                    && t.spec_nanosecond() == 0,
                Err(e) => !valid_time(hour as int, minute as int, second as int, 0) && e.component
                    == (if hour >= 24 {
                    Component::Hour
                } else if minute >= 60 {
                    Component::Minute
                } else {
                    Component::Second
                }),
            },
    {
        Time::try_from_hms_nano(hour, minute, second, 0)
    }

    /// The time with the given hour, minute, second and millisecond.
    pub fn try_from_hms_milli(hour: u8, minute: u8, second: u8, millisecond: u16) -> (r: Result<
        Time,
        ComponentRangeError,
    >)
        ensures
            match r {
                Ok(t) => valid_time(hour as int, minute as int, second as int, millisecond * 1_000_000)
                    && t.spec_hour() == hour && t.spec_minute() == minute && t.spec_second()
                    == second && t.spec_nanosecond() == millisecond * 1_000_000,
                Err(e) => !valid_time(hour as int, minute as int, second as int, millisecond * 1_000_000)
                    && e.component == (if hour >= 24 {
                    Component::Hour
                } else if minute >= 60 {
                    Component::Minute
                } else if second >= 60 {
                    Component::Second
                } else {
                    Component::Millisecond
                }),
            },
    {
        if millisecond >= 1_000 && hour < 24 && minute < 60 && second < 60 {
            return Err(ComponentRangeError { component: Component::Millisecond });
        }
        let nanosecond = if millisecond < 1_000 {
            millisecond as u32 * 1_000_000
        } else {
            0
        };
        Time::try_from_hms_nano(hour, minute, second, nanosecond)
    }

    /// The time with the given hour, minute, second and microsecond.
    pub fn try_from_hms_micro(hour: u8, minute: u8, second: u8, microsecond: u32) -> (r: Result<
        Time,
        ComponentRangeError,
    >)
        ensures
            match r {
                Ok(t) => valid_time(hour as int, minute as int, second as int, microsecond * 1_000)
                    && t.spec_hour() == hour && t.spec_minute() == minute && t.spec_second()
                    == second && t.spec_nanosecond() == microsecond * 1_000,
                Err(e) => !valid_time(hour as int, minute as int, second as int, microsecond * 1_000)
                    && e.component == (if hour >= 24 {
                    Component::Hour
                } else if minute >= 60 {
                    Component::Minute
                } else if second >= 60 {
                    Component::Second
                } else {
                    Component::Microsecond
                }),
            },
    {
        if microsecond >= 1_000_000 {
            if hour < 24 && minute < 60 && second < 60 {
                return Err(ComponentRangeError { component: Component::Microsecond });
            }
        }
        let nanosecond = if microsecond < 1_000_000 {
            microsecond * 1_000
        } else {
            0
        };
        Time::try_from_hms_nano(hour, minute, second, nanosecond)
    }

    /// The clock hour: 0 to 23.
    pub fn hour(self) -> (r: u8)
        ensures
            r == self.spec_hour(),
            r < 24,
    {
        proof {
            use_type_invariant(&self);
        }
        self.hour
    }

    /// The minute within the hour: 0 to 59.
    pub fn minute(self) -> (r: u8)
        ensures
            r == self.spec_minute(),
            r < 60,
    {
        proof {
            use_type_invariant(&self);
        }
        self.minute
    }

    /// The second within the minute: 0 to 59.
    pub fn second(self) -> (r: u8)
        ensures
            r == self.spec_second(),
            r < 60,
    {
        proof {
            use_type_invariant(&self);
        }
        self.second
    }

    /// The millisecond within the second: 0 to 999.
    pub fn millisecond(self) -> (r: u16)
        ensures
            r == self.spec_nanosecond() / 1_000_000,
            r < 1_000,
    {
        proof {
            use_type_invariant(&self);
        }
        (self.nanosecond / 1_000_000) as u16
    }

    /// The microsecond within the second: 0 to 999,999.
    pub fn microsecond(self) -> (r: u32)
        ensures
            r == self.spec_nanosecond() / 1_000,
            r < 1_000_000,
    {
        proof {
            use_type_invariant(&self);
        }
        self.nanosecond / 1_000
    }

    /// The nanosecond within the second: 0 to 999,999,999.
    pub fn nanosecond(self) -> (r: u32)
        ensures
            r == self.spec_nanosecond(),
            r < NANOS_PER_SECOND,
    {
        proof {
            use_type_invariant(&self);
        }
        self.nanosecond
    }

    /// The time `duration` after this one on a clock, wrapping around midnight.
    pub fn add_duration(self, duration: Duration) -> (t: Time)
        ensures
            t.nanos() == (self.nanos() + duration@) % NANOS_PER_DAY as int,
    {
        let day = NANOS_PER_DAY as i128;
        let rem = duration.whole_nanoseconds() % day;
        proof {
            lemma_trunc_rem_day(duration@);
        }
        let shifted = (self.nanoseconds_since_midnight() as i128 + rem + day) as i128;
        proof {
            vstd::arithmetic::div_mod::lemma_mod_bound(shifted as int, day as int);
            lemma_mod_same_class(self.nanos() + duration@, shifted as int, day as int);
        }
        Time::from_nanos_since_midnight((shifted % day) as u64)
    }

    /// The time `duration` before this one on a clock, wrapping around midnight.
    pub fn sub_duration(self, duration: Duration) -> (t: Time)
        ensures
            t.nanos() == (self.nanos() - duration@) % NANOS_PER_DAY as int,
    {
        let day = NANOS_PER_DAY as i128;
        let rem = duration.whole_nanoseconds() % day;
        proof {
            lemma_trunc_rem_day(duration@);
        }
        let shifted = (self.nanoseconds_since_midnight() as i128 - rem + day) as i128;
        proof {
            vstd::arithmetic::div_mod::lemma_mod_bound(shifted as int, day as int);
            lemma_mod_same_class(self.nanos() - duration@, shifted as int, day as int);
        }
        Time::from_nanos_since_midnight((shifted % day) as u64)
    }

    /// The span from `rhs` to this time within a day: negative when `rhs` is later.
    pub fn duration_since(self, rhs: Time) -> (d: Duration)
        ensures
            d@ == self.nanos() - rhs.nanos(),
    {
        Duration::nanoseconds(
            self.nanoseconds_since_midnight() as i64 - rhs.nanoseconds_since_midnight() as i64,
        )
    }
}

/// Moving a clock time forward by a span and then back by the same span
/// gives back the time one started from.
pub proof fn lemma_add_then_sub(t: Time, forward: Time, back: Time, span: int)
    requires
        t.inv(),
        forward.inv(),
        back.inv(),
        forward.nanos() == (t.nanos() + span) % NANOS_PER_DAY as int,
        back.nanos() == (forward.nanos() - span) % NANOS_PER_DAY as int,
    ensures
        back == t,
{
    let nd = NANOS_PER_DAY as int;
    t.lemma_valid();
    vstd::arithmetic::div_mod::lemma_fundamental_div_mod(t.nanos() + span, nd);
    let q = (t.nanos() + span) / nd;
    assert(forward.nanos() - span == t.nanos() + (-q) * nd);
    vstd::arithmetic::div_mod::lemma_fundamental_div_mod_converse(
        forward.nanos() - span,
        nd,
        -q,
        t.nanos(),
    );
    Time::lemma_nanos_injective(back, t);
}

/// The components of a clock time place it within the day.
proof fn lemma_nanos_of_bounds(hour: int, minute: int, second: int, nanosecond: int)
    requires
        valid_time(hour, minute, second, nanosecond),
    ensures
        0 <= nanos_of(hour, minute, second, nanosecond) < NANOS_PER_DAY,
{
    assert(0 <= nanos_of(hour, minute, second, nanosecond) < NANOS_PER_DAY) by (nonlinear_arith)
        requires
            valid_time(hour, minute, second, nanosecond),
    ;
}

/// Splitting a point of the day into hour, minute, second and nanosecond.
proof fn lemma_split_nanos(nanos: int)
    requires
        0 <= nanos < NANOS_PER_DAY,
    ensures
        ({
            let h = nanos / (3_600 * NANOS_PER_SECOND);
            let m = nanos / (60 * NANOS_PER_SECOND) % 60;
            let s = nanos / (NANOS_PER_SECOND as int) % 60;
            let n = nanos % (NANOS_PER_SECOND as int);
            valid_time(h, m, s, n) && nanos_of(h, m, s, n) == nanos
        }),
{
    let ns = NANOS_PER_SECOND as int;
    let total_s = nanos / ns;
    let n = nanos % ns;
    vstd::arithmetic::div_mod::lemma_fundamental_div_mod(nanos, ns);
    vstd::arithmetic::div_mod::lemma_mod_bound(nanos, ns);
    let total_m = total_s / 60;
    let s = total_s % 60;
    vstd::arithmetic::div_mod::lemma_fundamental_div_mod(total_s, 60);
    vstd::arithmetic::div_mod::lemma_mod_bound(total_s, 60);
    let h = total_m / 60;
    let m = total_m % 60;
    vstd::arithmetic::div_mod::lemma_fundamental_div_mod(total_m, 60);
    vstd::arithmetic::div_mod::lemma_mod_bound(total_m, 60);
    vstd::arithmetic::div_mod::lemma_div_denominator(nanos, ns, 60);
    vstd::arithmetic::div_mod::lemma_div_denominator(total_s, 60, 60);
    vstd::arithmetic::div_mod::lemma_div_denominator(nanos, ns * 60, 60);
    assert(total_m == nanos / (60 * ns));
    assert(h == nanos / (3_600 * ns));
    assert(h < 24) by {
        vstd::arithmetic::div_mod::lemma_div_is_ordered(nanos, NANOS_PER_DAY - 1, 3_600 * ns);
    }
    assert(nanos_of(h, m, s, n) == nanos) by (nonlinear_arith)
        requires
            nanos == ns * total_s + n,
            total_s == 60 * total_m + s,
            total_m == 60 * h + m,
            ns == NANOS_PER_SECOND,
    ;
}

/// The components of a clock time are determined by its point in the day.
proof fn lemma_nanos_of_unique(hour: int, minute: int, second: int, nanosecond: int)
    requires
        valid_time(hour, minute, second, nanosecond),
    ensures
        ({
            let nanos = nanos_of(hour, minute, second, nanosecond);
            &&& hour == nanos / (3_600 * NANOS_PER_SECOND)
            &&& minute == nanos / (60 * NANOS_PER_SECOND) % 60
            &&& second == nanos / (NANOS_PER_SECOND as int) % 60
            &&& nanosecond == nanos % (NANOS_PER_SECOND as int)
        }),
{
    let ns = NANOS_PER_SECOND as int;
    let nanos = nanos_of(hour, minute, second, nanosecond);
    let total_s = (hour * 60 + minute) * 60 + second;
    assert(nanos == total_s * ns + nanosecond);
    vstd::arithmetic::div_mod::lemma_fundamental_div_mod_converse(nanos, ns, total_s, nanosecond);
    vstd::arithmetic::div_mod::lemma_fundamental_div_mod_converse(total_s, 60, hour * 60 + minute, second);
    vstd::arithmetic::div_mod::lemma_fundamental_div_mod_converse(hour * 60 + minute, 60, hour, minute);
    vstd::arithmetic::div_mod::lemma_div_denominator(nanos, ns, 60);
    vstd::arithmetic::div_mod::lemma_div_denominator(total_s, 60, 60);
    vstd::arithmetic::div_mod::lemma_div_denominator(nanos, ns * 60, 60);
}

/// Rust's remainder by a day keeps the sign of the dividend and stays within a day.
proof fn lemma_trunc_rem_day(v: int)
    ensures
        -NANOS_PER_DAY < trunc_rem(v, NANOS_PER_DAY as int) < NANOS_PER_DAY,
        (v - trunc_rem(v, NANOS_PER_DAY as int)) % (NANOS_PER_DAY as int) == 0,
{
    crate::arith::lemma_trunc_div(v, NANOS_PER_DAY as int);
    let q = crate::arith::trunc_div(v, NANOS_PER_DAY as int);
    vstd::arithmetic::div_mod::lemma_fundamental_div_mod_converse(
        v - trunc_rem(v, NANOS_PER_DAY as int),
        NANOS_PER_DAY as int,
        q,
        0,
    );
}

/// Two numbers that differ by a multiple of `m` leave the same remainder.
proof fn lemma_mod_same_class(a: int, b: int, m: int)
    requires
        m > 0,
        (a - b) % m == 0,
    ensures
        a % m == b % m,
{
    vstd::arithmetic::div_mod::lemma_fundamental_div_mod(a - b, m);
    let k = (a - b) / m;
    vstd::arithmetic::div_mod::lemma_fundamental_div_mod(b, m);
    vstd::arithmetic::div_mod::lemma_mod_bound(b, m);
    assert(a == (k + b / m) * m + b % m) by (nonlinear_arith)
        requires
            a - b == m * k,
            b == m * (b / m) + b % m,
    ;
    vstd::arithmetic::div_mod::lemma_fundamental_div_mod_converse(a, m, k + b / m, b % m);
}

} // verus!

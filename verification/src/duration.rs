//! Signed spans of time with nanosecond precision.
use vstd::prelude::*;

use crate::arith::{div_trunc, lemma_trunc_div, lemma_trunc_div_unique, trunc_div, trunc_rem};

verus! {

/// Nanoseconds in one second.
pub const NANOS_PER_SECOND: i64 = 1_000_000_000;

/// Seconds in one day.
pub const SECONDS_PER_DAY: i64 = 86_400;

/// Nanoseconds in one day.
pub const NANOS_PER_DAY: i64 = 86_400_000_000_000;

/// Whether a span of `nanos` nanoseconds can be held by a `Duration`: its
/// whole seconds must fit in an `i64`.
pub open spec fn duration_fits(nanos: int) -> bool {
    i64::MIN <= trunc_div(nanos, NANOS_PER_SECOND as int) <= i64::MAX
}

/// A signed span of time: whole seconds and the nanoseconds beyond them, which
/// carry the same sign as the seconds.
#[derive(Clone, Copy, Debug, PartialEq, Eq, Hash, Ord, Structural)]
pub struct Duration {
    seconds: i64,
    nanoseconds: i32,
}

impl View for Duration {
    type V = int;

    /// The span in nanoseconds.
    closed spec fn view(&self) -> int {
        self.seconds * NANOS_PER_SECOND + self.nanoseconds
    }
}

impl Duration {
    /// The nanoseconds are less than a second and share the sign of the seconds.
    #[verifier::type_invariant]
    pub closed spec fn inv(self) -> bool {
        &&& -NANOS_PER_SECOND < self.nanoseconds < NANOS_PER_SECOND
        &&& self.seconds > 0 ==> self.nanoseconds >= 0
        &&& self.seconds < 0 ==> self.nanoseconds <= 0
    }

    /// Every duration's span fits, and its parts are the truncating quotient
    /// and remainder of the span by one second.
    proof fn lemma_parts(self)
        requires
            self.inv(),
        ensures
            self.seconds == trunc_div(self@, NANOS_PER_SECOND as int),
            self.nanoseconds == trunc_rem(self@, NANOS_PER_SECOND as int),
            duration_fits(self@),
    {
        lemma_trunc_div_unique(
            self@,
            NANOS_PER_SECOND as int,
            self.seconds as int,
            self.nanoseconds as int,
        );
    }

    /// Every duration's span fits.
    pub proof fn lemma_fits(self)
        requires
            self.inv(),
        ensures
            duration_fits(self@),
    {
        self.lemma_parts();
    }

    /// Two durations with the same span are the same duration.
    pub proof fn lemma_view_injective(d1: Duration, d2: Duration)
        requires
            d1.inv(),
            d2.inv(),
            d1@ == d2@,
        ensures
            d1 == d2,
    {
        d1.lemma_parts();
        d2.lemma_parts();
    }

    /// The duration of `nanos` nanoseconds, when `duration_fits(nanos)`.
    pub closed spec fn from_nanos_spec(nanos: int) -> Duration {
        Duration {
            seconds: trunc_div(nanos, NANOS_PER_SECOND as int) as i64,
            nanoseconds: trunc_rem(nanos, NANOS_PER_SECOND as int) as i32,
        }
    }

    /// The duration `from_nanos_spec(nanos)` spans `nanos` nanoseconds.
    pub proof fn lemma_from_nanos_spec(nanos: int)
        requires
            duration_fits(nanos),
        ensures
            Duration::from_nanos_spec(nanos)@ == nanos,
            Duration::from_nanos_spec(nanos).inv(),
    {
        lemma_trunc_div(nanos, NANOS_PER_SECOND as int);
    }

    /// The duration spanning exactly `nanos` nanoseconds.
    pub fn from_nanos_i128(nanos: i128) -> (d: Duration)
        requires
            duration_fits(nanos as int),
        ensures
            d@ == nanos,
            d == Duration::from_nanos_spec(nanos as int),
    {
        proof {
            lemma_trunc_div(nanos as int, NANOS_PER_SECOND as int);
        }
        let seconds = div_trunc(nanos, NANOS_PER_SECOND as i128);
        let nanoseconds = nanos - seconds * NANOS_PER_SECOND as i128;
        Duration { seconds: seconds as i64, nanoseconds: nanoseconds as i32 }
    }

    /// The empty span.
    pub fn zero() -> (d: Duration)
        ensures
            d@ == 0,
    {
        Duration { seconds: 0, nanoseconds: 0 }
    }

    /// One nanosecond.
    pub fn nanosecond() -> (d: Duration)
        ensures
            d@ == 1,
    {
        Duration { seconds: 0, nanoseconds: 1 }
    }

    /// One microsecond.
    pub fn microsecond() -> (d: Duration)
        ensures
            d@ == 1_000,
    {
        Duration { seconds: 0, nanoseconds: 1_000 }
    }

    /// One millisecond.
    pub fn millisecond() -> (d: Duration)
        ensures
            d@ == 1_000_000,
    {
        Duration { seconds: 0, nanoseconds: 1_000_000 }
    }

    /// One second.
    pub fn second() -> (d: Duration)
        ensures
            d@ == NANOS_PER_SECOND,
    {
        Duration { seconds: 1, nanoseconds: 0 }
    }

    /// One minute.
    pub fn minute() -> (d: Duration)
        ensures
            d@ == 60 * NANOS_PER_SECOND,
    {
        Duration { seconds: 60, nanoseconds: 0 }
    }

    /// One hour.
    pub fn hour() -> (d: Duration)
        ensures
            d@ == 3_600 * NANOS_PER_SECOND,
    {
        Duration { seconds: 3_600, nanoseconds: 0 }
    }

    /// One day.
    pub fn day() -> (d: Duration)
        ensures
            d@ == NANOS_PER_DAY,
    {
        Duration { seconds: SECONDS_PER_DAY, nanoseconds: 0 }
    }

    /// One week.
    pub fn week() -> (d: Duration)
        ensures
            d@ == 7 * NANOS_PER_DAY,
    {
        Duration { seconds: 7 * SECONDS_PER_DAY, nanoseconds: 0 }
    }

    /// The duration of `seconds` seconds plus `nanoseconds` nanoseconds.
    pub fn new(seconds: i64, nanoseconds: i32) -> (d: Duration)
        requires
            duration_fits(seconds * NANOS_PER_SECOND + nanoseconds),
        ensures
            d@ == seconds * NANOS_PER_SECOND + nanoseconds,
    {
        Duration::from_nanos_i128(seconds as i128 * NANOS_PER_SECOND as i128 + nanoseconds as i128)
    }

    /// The duration of `weeks` weeks.
    pub fn weeks(weeks: i64) -> (d: Duration)
        requires
            i64::MIN <= weeks * 7 * SECONDS_PER_DAY <= i64::MAX,
        ensures
            d@ == weeks * 7 * NANOS_PER_DAY,
    {
        Duration { seconds: weeks * 7 * SECONDS_PER_DAY, nanoseconds: 0 }
    }

    /// The duration of `days` days.
    pub fn days(days: i64) -> (d: Duration)
        requires
            i64::MIN <= days * SECONDS_PER_DAY <= i64::MAX,
        ensures
            d@ == days * NANOS_PER_DAY,
    {
        Duration { seconds: days * SECONDS_PER_DAY, nanoseconds: 0 }
    }

    /// The duration of `hours` hours.
    pub fn hours(hours: i64) -> (d: Duration)
        requires
            i64::MIN <= hours * 3_600 <= i64::MAX,
        ensures
            d@ == hours * 3_600 * NANOS_PER_SECOND,
    {
        Duration { seconds: hours * 3_600, nanoseconds: 0 }
    }

    /// The duration of `minutes` minutes.
    pub fn minutes(minutes: i64) -> (d: Duration)
        requires
            i64::MIN <= minutes * 60 <= i64::MAX,
        ensures
            d@ == minutes * 60 * NANOS_PER_SECOND,
    {
        Duration { seconds: minutes * 60, nanoseconds: 0 }
    }

    /// The duration of `seconds` seconds.
    pub fn seconds(seconds: i64) -> (d: Duration)
        ensures
            d@ == seconds * NANOS_PER_SECOND,
    {
        Duration { seconds, nanoseconds: 0 }
    }

    /// The duration of `milliseconds` milliseconds.
    pub fn milliseconds(milliseconds: i64) -> (d: Duration)
        ensures
            d@ == milliseconds * 1_000_000,
    {
        proof {
            lemma_trunc_div(milliseconds * 1_000_000, NANOS_PER_SECOND as int);
        }
        Duration::from_nanos_i128(milliseconds as i128 * 1_000_000)
    }

    /// The duration of `microseconds` microseconds.
    pub fn microseconds(microseconds: i64) -> (d: Duration)
        ensures
            d@ == microseconds * 1_000,
    {
        proof {
            lemma_trunc_div(microseconds * 1_000, NANOS_PER_SECOND as int);
        }
        Duration::from_nanos_i128(microseconds as i128 * 1_000)
    }

    /// The duration of `nanoseconds` nanoseconds.
    pub fn nanoseconds(nanoseconds: i64) -> (d: Duration)
        ensures
            d@ == nanoseconds,
    {
        proof {
            lemma_trunc_div(nanoseconds as int, NANOS_PER_SECOND as int);
        }
        Duration::from_nanos_i128(nanoseconds as i128)
    }

    /// The span in nanoseconds.
    pub fn whole_nanoseconds(self) -> (r: i128)
        ensures
            r == self@,
    {
        proof {
            use_type_invariant(&self);
            let s = self.seconds as int;
            assert(-10_000_000_000_000_000_000_000_000_000 < s * NANOS_PER_SECOND
                < 10_000_000_000_000_000_000_000_000_000) by (nonlinear_arith)
                requires
                    i64::MIN <= s <= i64::MAX,
            ;
        }
        self.seconds as i128 * NANOS_PER_SECOND as i128 + self.nanoseconds as i128
    }

    /// The span in whole seconds, rounded toward zero.
    pub fn whole_seconds(self) -> (r: i64)
        ensures
            r == trunc_div(self@, NANOS_PER_SECOND as int),
    {
        proof {
            use_type_invariant(&self);
            self.lemma_parts();
        }
        self.seconds
    }

    /// The span in whole units of `unit` nanoseconds, rounded toward zero.
    fn whole_units(self, unit: i128) -> (r: i64)
        requires
            unit >= NANOS_PER_SECOND,
        ensures
            r == trunc_div(self@, unit as int),
    {
        proof {
            use_type_invariant(&self);
            self.lemma_parts();
            lemma_trunc_div(self@, NANOS_PER_SECOND as int);
            lemma_trunc_div(self@, unit as int);
            lemma_trunc_div_bounded(self@, NANOS_PER_SECOND as int, unit as int);
        }
        div_trunc(self.whole_nanoseconds(), unit) as i64
    }

    /// The span in whole minutes, rounded toward zero.
    pub fn whole_minutes(self) -> (r: i64)
        ensures
            r == trunc_div(self@, 60 * NANOS_PER_SECOND),
    {
        self.whole_units(60 * NANOS_PER_SECOND as i128)
    }

    /// The span in whole hours, rounded toward zero.
    pub fn whole_hours(self) -> (r: i64)
        ensures
            r == trunc_div(self@, 3_600 * NANOS_PER_SECOND),
    {
        self.whole_units(3_600 * NANOS_PER_SECOND as i128)
    }

    /// The span in whole days, rounded toward zero.
    pub fn whole_days(self) -> (r: i64)
        ensures
            r == trunc_div(self@, NANOS_PER_DAY as int),
    {
        self.whole_units(NANOS_PER_DAY as i128)
    }

    /// The span in whole weeks, rounded toward zero.
    pub fn whole_weeks(self) -> (r: i64)
        ensures
            r == trunc_div(self@, 7 * NANOS_PER_DAY),
    {
        self.whole_units(7 * NANOS_PER_DAY as i128)
    }

    /// The span in whole milliseconds, rounded toward zero.
    pub fn whole_milliseconds(self) -> (r: i128)
        ensures
            r == trunc_div(self@, 1_000_000),
    {
        proof {
            use_type_invariant(&self);
            self.lemma_parts();
        }
        div_trunc(self.whole_nanoseconds(), 1_000_000)
    }

    /// The span in whole microseconds, rounded toward zero.
    pub fn whole_microseconds(self) -> (r: i128)
        ensures
            r == trunc_div(self@, 1_000),
    {
        proof {
            use_type_invariant(&self);
            self.lemma_parts();
        }
        div_trunc(self.whole_nanoseconds(), 1_000)
    }

    /// The nanoseconds beyond the whole seconds; they share the span's sign.
    pub fn subsec_nanoseconds(self) -> (r: i32)
        ensures
            r == trunc_rem(self@, NANOS_PER_SECOND as int),
            -NANOS_PER_SECOND < r < NANOS_PER_SECOND,
    {
        proof {
            use_type_invariant(&self);
            self.lemma_parts();
        }
        self.nanoseconds
    }

    /// Whether the span is empty.
    pub fn is_zero(self) -> (r: bool)
        ensures
            r == (self@ == 0),
    {
        proof {
            use_type_invariant(&self);
        }
        self.seconds == 0 && self.nanoseconds == 0
    }

    /// Whether the span is negative.
    pub fn is_negative(self) -> (r: bool)
        ensures
            r == (self@ < 0),
    {
        proof {
            use_type_invariant(&self);
        }
        self.seconds < 0 || self.nanoseconds < 0
    }

    /// Whether the span is positive.
    pub fn is_positive(self) -> (r: bool)
        ensures
            r == (self@ > 0),
    {
        proof {
            use_type_invariant(&self);
        }
        self.seconds > 0 || self.nanoseconds > 0
    }

    /// The sum of two spans, or `None` when it does not fit.
    pub fn checked_add(self, rhs: Duration) -> (r: Option<Duration>)
        ensures
            r matches Some(d) ==> d@ == self@ + rhs@,
            r is Some <==> duration_fits(self@ + rhs@),
    {
        let total = self.whole_nanoseconds() + rhs.whole_nanoseconds();
        if fits_i128(total) {
            Some(Duration::from_nanos_i128(total))
        } else {
            None
        }
    }

    /// The difference of two spans, or `None` when it does not fit.
    pub fn checked_sub(self, rhs: Duration) -> (r: Option<Duration>)
        ensures
            r matches Some(d) ==> d@ == self@ - rhs@,
            r is Some <==> duration_fits(self@ - rhs@),
    {
        let total = self.whole_nanoseconds() - rhs.whole_nanoseconds();
        if fits_i128(total) {
            Some(Duration::from_nanos_i128(total))
        } else {
            None
        }
    }

}

impl core::ops::Add for Duration {
    type Output = Duration;

    /// The sum of two spans.
    fn add(self, rhs: Duration) -> (r: Duration) {
        Duration::from_nanos_i128(self.whole_nanoseconds() + rhs.whole_nanoseconds())
    }
}

impl vstd::std_specs::ops::AddSpecImpl for Duration {
    open spec fn obeys_add_spec() -> bool {
        true
    }

    open spec fn add_req(self, rhs: Duration) -> bool {
        duration_fits(self@ + rhs@)
    }

    open spec fn add_spec(self, rhs: Duration) -> Duration {
        Duration::from_nanos_spec(self@ + rhs@)
    }
}

impl core::ops::Sub for Duration {
    type Output = Duration;

    /// The difference of two spans.
    fn sub(self, rhs: Duration) -> (r: Duration) {
        Duration::from_nanos_i128(self.whole_nanoseconds() - rhs.whole_nanoseconds())
    }
}

impl vstd::std_specs::ops::SubSpecImpl for Duration {
    open spec fn obeys_sub_spec() -> bool {
        true
    }

    open spec fn sub_req(self, rhs: Duration) -> bool {
        duration_fits(self@ - rhs@)
    }

    open spec fn sub_spec(self, rhs: Duration) -> Duration {
        Duration::from_nanos_spec(self@ - rhs@)
    }
}

impl core::ops::Neg for Duration {
    type Output = Duration;

    /// The span of the same length in the other direction.
    fn neg(self) -> (r: Duration) {
        Duration::from_nanos_i128(-self.whole_nanoseconds())
    }
}

impl vstd::std_specs::ops::NegSpecImpl for Duration {
    open spec fn obeys_neg_spec() -> bool {
        true
    }

    open spec fn neg_req(self) -> bool {
        duration_fits(-self@)
    }

    open spec fn neg_spec(self) -> Duration {
        Duration::from_nanos_spec(-self@)
    }
}

/// Every span of at most 10^27 nanoseconds either way fits in a `Duration`.
pub proof fn lemma_small_fits(nanos: int)
    requires
        -1_000_000_000_000_000_000_000_000_000 <= nanos <= 1_000_000_000_000_000_000_000_000_000,
    ensures
        duration_fits(nanos),
{
    let ns = NANOS_PER_SECOND as int;
    let m = if nanos >= 0 { nanos } else { -nanos };
    vstd::arithmetic::div_mod::lemma_div_is_ordered(m, 1_000_000_000_000_000_000_000_000_000, ns);
    vstd::arithmetic::div_mod::lemma_div_pos_is_pos(m, ns);
}

/// Whether a span in nanoseconds, held in an `i128`, fits in a `Duration`.
fn fits_i128(nanos: i128) -> (r: bool)
    ensures
        r == duration_fits(nanos as int),
{
    if nanos == i128::MIN {
        proof {
            lemma_trunc_div(nanos as int, NANOS_PER_SECOND as int);
        }
        return false;
    }
    let seconds = div_trunc(nanos, NANOS_PER_SECOND as i128);
    i64::MIN as i128 <= seconds && seconds <= i64::MAX as i128
}

/// Truncating first by a divisor `a` that divides `b` does not change the
/// truncated quotient by `b` when the remainder stays below `a`.
proof fn lemma_trunc_div_bounded(v: int, a: int, b: int)
    requires
        0 < a <= b,
    ensures
        i64::MIN <= trunc_div(v, a) <= i64::MAX ==> i64::MIN <= trunc_div(v, b) <= i64::MAX,
{
    vstd::arithmetic::div_mod::lemma_div_is_ordered_by_denominator(
        if v >= 0 { v } else { -v },
        a,
        b,
    );
    vstd::arithmetic::div_mod::lemma_div_pos_is_pos(if v >= 0 { v } else { -v }, b);
}

} // verus!

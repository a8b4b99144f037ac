//! Points on the system clock, and reading the clock.
use vstd::prelude::*;

use crate::duration::{lemma_small_fits, Duration, NANOS_PER_SECOND};
use crate::primitive_date_time::{instant_fits, PrimitiveDateTime};
use crate::std_duration::StdDuration;

verus! {

/// The standard library's clock reading, which the library only carries.
#[verifier::external_type_specification]
#[verifier::external_body]
pub struct ExStdSystemTime(std::time::SystemTime);

/// Reads the system clock with `std::time::SystemTime::now`; nothing is
/// known of the reading.
#[verifier::external_body]
fn std_now() -> std::time::SystemTime {
    std::time::SystemTime::now()
}

/// `std::time::SystemTime::duration_since(UNIX_EPOCH)`: the span from the
/// Unix epoch to `t`, as `Ok` when `t` is not earlier, else as `Err` holding
/// the span back from the epoch. Nothing is known of the span's size.
#[verifier::external_body]
fn std_since_unix_epoch(t: &std::time::SystemTime) -> Result<core::time::Duration, core::time::Duration> {
    match t.duration_since(std::time::SystemTime::UNIX_EPOCH) {
        Ok(d) => Ok(d),
        Err(e) => Err(e.duration()),
    }
}

/// A point on the system clock within the range a `PrimitiveDateTime`
/// holds, as whole seconds from the Unix epoch and the nanoseconds beyond them.
#[derive(Clone, Copy, Debug, PartialEq, Eq, Hash, PartialOrd, Ord, Structural)]
pub struct SystemTime {
    seconds: i64,
    nanoseconds: u32,
}

impl View for SystemTime {
    type V = int;

    /// Nanoseconds after the Unix epoch (negative before it).
    closed spec fn view(&self) -> int {
        self.seconds * NANOS_PER_SECOND + self.nanoseconds
    }
}

impl SystemTime {
    /// The nanoseconds are below a second, and the point lies in range.
    #[verifier::type_invariant]
    pub closed spec fn inv(self) -> bool {
        &&& self.nanoseconds < NANOS_PER_SECOND
        &&& instant_fits(self@)
    }

    /// The point `nanos` nanoseconds after the Unix epoch.
    pub closed spec fn from_nanos_spec(nanos: int) -> SystemTime {
        SystemTime {
            seconds: (nanos / NANOS_PER_SECOND as int) as i64,
            nanoseconds: (nanos % NANOS_PER_SECOND as int) as u32,
        }
    }

    /// `from_nanos_spec(nanos)` is a valid point at `nanos`.
    pub proof fn lemma_from_nanos_spec(nanos: int)
        requires
            instant_fits(nanos),
        ensures
            SystemTime::from_nanos_spec(nanos).inv(),
            SystemTime::from_nanos_spec(nanos)@ == nanos,
    {
        vstd::arithmetic::div_mod::lemma_fundamental_div_mod(nanos, NANOS_PER_SECOND as int);
        vstd::arithmetic::div_mod::lemma_mod_bound(nanos, NANOS_PER_SECOND as int);
    }

    /// Every point lies in the range a `PrimitiveDateTime` holds.
    pub proof fn lemma_valid(self)
        requires
            self.inv(),
        ensures
            instant_fits(self@),
    {
    }

    /// Two points with the same position on the clock are the same point.
    pub proof fn lemma_view_injective(a: SystemTime, b: SystemTime)
        requires
            a.inv(),
            b.inv(),
            a@ == b@,
        ensures
            a == b,
    {
        vstd::arithmetic::div_mod::lemma_fundamental_div_mod_converse(
            a@,
            NANOS_PER_SECOND as int,
            a.seconds as int,
            a.nanoseconds as int,
        );
        vstd::arithmetic::div_mod::lemma_fundamental_div_mod_converse(
            b@,
            NANOS_PER_SECOND as int,
            b.seconds as int,
            b.nanoseconds as int,
        );
    }

    /// Converting a date-time to a point on the clock and back gives the
    /// same date-time.
    pub proof fn lemma_datetime_round_trip(datetime: PrimitiveDateTime)
        requires
            datetime.inv(),
        ensures
            PrimitiveDateTime::from_nanos_spec(SystemTime::from_nanos_spec(datetime.nanos())@)
                == datetime,
    {
        datetime.lemma_valid();
        SystemTime::lemma_from_nanos_spec(datetime.nanos());
        PrimitiveDateTime::lemma_from_nanos_spec(datetime.nanos());
        PrimitiveDateTime::lemma_nanos_injective(
            datetime,
            PrimitiveDateTime::from_nanos_spec(datetime.nanos()),
        );
    }

    /// Converting a point on the clock to a date-time and back gives the
    /// same point.
    pub proof fn lemma_system_time_round_trip(time: SystemTime)
        requires
            time.inv(),
        ensures
            SystemTime::from_nanos_spec(PrimitiveDateTime::from_nanos_spec(time@).nanos()) == time,
    {
        PrimitiveDateTime::lemma_from_nanos_spec(time@);
        SystemTime::lemma_from_nanos_spec(time@);
        SystemTime::lemma_view_injective(time, SystemTime::from_nanos_spec(time@));
    }

    /// The point `nanos` nanoseconds after the Unix epoch.
    pub fn from_nanos_i128(nanos: i128) -> (r: SystemTime)
        requires
            instant_fits(nanos as int),
        ensures
            r@ == nanos,
            r == SystemTime::from_nanos_spec(nanos as int),
    {
        proof {
            SystemTime::lemma_from_nanos_spec(nanos as int);
        }
        let seconds = crate::arith::div_floor_i128(nanos, NANOS_PER_SECOND as i128);
        let nanoseconds = nanos - seconds * NANOS_PER_SECOND as i128;
        proof {
            vstd::arithmetic::div_mod::lemma_fundamental_div_mod(nanos as int, NANOS_PER_SECOND as int);
        }
        SystemTime { seconds: seconds as i64, nanoseconds: nanoseconds as u32 }
    }

    /// Nanoseconds after the Unix epoch (negative before it).
    pub fn nanos_since_unix_epoch(self) -> (r: i128)
        ensures
            r == self@,
    {
        proof {
            use_type_invariant(&self);
        }
        self.seconds as i128 * NANOS_PER_SECOND as i128 + self.nanoseconds as i128
    }

    /// The Unix epoch: 1970-01-01T00:00 UTC.
    pub fn unix_epoch() -> (r: SystemTime)
        ensures
            r@ == 0,
    {
        SystemTime { seconds: 0, nanoseconds: 0 }
    }

    /// The point `seconds` seconds and `nanoseconds` nanoseconds from the
    /// Unix epoch, later when `before_epoch` is false and earlier when it is
    /// true; `None` when that point lies out of range.
    pub fn from_epoch_offset(before_epoch: bool, seconds: u64, nanoseconds: u32) -> (r: Option<
        SystemTime,
    >)
        requires
            nanoseconds < NANOS_PER_SECOND,
        ensures
            ({
                let span = seconds * NANOS_PER_SECOND + nanoseconds;
                let nanos = if before_epoch {
                    -span
                } else {
                    span
                };
                &&& r is Some <==> instant_fits(nanos)
                &&& r matches Some(t) ==> t@ == nanos
            }),
    {
        // Anything beyond 10^16 seconds lies far outside the range.
        if seconds > 10_000_000_000_000_000 {
            return None;
        }
        proof {
            assert(seconds * NANOS_PER_SECOND <= 10_000_000_000_000_000 * NANOS_PER_SECOND)
                by (nonlinear_arith)
                requires
                    seconds <= 10_000_000_000_000_000,
            ;
        }
        let span = seconds as i128 * NANOS_PER_SECOND as i128 + nanoseconds as i128;
        let nanos = if before_epoch {
            -span
        } else {
            span
        };
        if in_range(nanos) {
            Some(SystemTime::from_nanos_i128(nanos))
        } else {
            None
        }
    }

    /// The point that lies the span `since` from the Unix epoch: after it
    /// for `Ok`, before it for `Err`, as `duration_since(UNIX_EPOCH)` reports
    /// a point; `None` when that point lies out of range.
    pub fn from_since_epoch(since: Result<StdDuration, StdDuration>) -> (r: Option<SystemTime>)
        ensures
            ({
                let nanos = match since {
                    Ok(d) => d@,
                    Err(d) => -d@,
                };
                &&& r is Some <==> instant_fits(nanos)
                &&& r matches Some(t) ==> t@ == nanos
            }),
    {
        match since {
            Ok(d) => {
                proof {
                    vstd::arithmetic::div_mod::lemma_fundamental_div_mod(d@, NANOS_PER_SECOND as int);
                }
                SystemTime::from_epoch_offset(false, d.as_secs(), d.subsec_nanos())
            },
            Err(d) => {
                proof {
                    vstd::arithmetic::div_mod::lemma_fundamental_div_mod(d@, NANOS_PER_SECOND as int);
                }
                SystemTime::from_epoch_offset(true, d.as_secs(), d.subsec_nanos())
            },
        }
    }

    /// The point that a span reported by `std::time::SystemTime::duration_since(UNIX_EPOCH)`
    /// names: `Ok` holds a span after the epoch, `Err` one before it. `None`
    /// when that point lies out of range.
    pub fn from_std_since_epoch(since: &Result<core::time::Duration, core::time::Duration>) -> (r:
        Option<SystemTime>)
        ensures
            since is Ok ==> (r matches Some(t) ==> t@ >= 0),
            since is Err ==> (r matches Some(t) ==> t@ <= 0),
    {
        match since {
            Ok(d) => {
                let span = StdDuration::from_std(d);
                proof {
                    use_type_invariant(&span);
                    span.lemma_range();
                }
                SystemTime::from_since_epoch(Ok(span))
            },
            Err(d) => {
                let span = StdDuration::from_std(d);
                proof {
                    use_type_invariant(&span);
                    span.lemma_range();
                }
                SystemTime::from_since_epoch(Err(span))
            },
        }
    }

    /// The point that a standard library `std::time::SystemTime` names;
    /// `None` when it lies out of range.
    pub fn from_std(t: &std::time::SystemTime) -> (r: Option<SystemTime>) {
        SystemTime::from_std_since_epoch(&std_since_unix_epoch(t))
    }

    /// Reads the system clock; `None` when the reading lies out of range.
    pub fn now() -> (r: Option<SystemTime>) {
        SystemTime::from_std(&std_now())
    }

    /// The point `duration` later.
    pub fn add_duration(self, duration: Duration) -> (r: SystemTime)
        requires
            instant_fits(self@ + duration@),
        ensures
            r@ == self@ + duration@,
            r == SystemTime::from_nanos_spec(self@ + duration@),
    {
        SystemTime::from_nanos_i128(self.nanos_since_unix_epoch() + duration.whole_nanoseconds())
    }

    /// The point `duration` earlier.
    pub fn sub_duration(self, duration: Duration) -> (r: SystemTime)
        requires
            instant_fits(self@ - duration@),
        ensures
            r@ == self@ - duration@,
            r == SystemTime::from_nanos_spec(self@ - duration@),
    {
        SystemTime::from_nanos_i128(self.nanos_since_unix_epoch() - duration.whole_nanoseconds())
    }

    /// Moves this point `duration` later.
    pub fn add_assign_duration(&mut self, duration: Duration)
        requires
            instant_fits(old(self)@ + duration@),
        ensures
            final(self)@ == old(self)@ + duration@,
    {
        *self = self.add_duration(duration);
    }

    /// Moves this point `duration` earlier.
    pub fn sub_assign_duration(&mut self, duration: Duration)
        requires
            instant_fits(old(self)@ - duration@),
        ensures
            final(self)@ == old(self)@ - duration@,
    {
        *self = self.sub_duration(duration);
    }

    /// The span from `rhs` to this point: negative when `rhs` is later.
    pub fn duration_since_datetime(self, rhs: PrimitiveDateTime) -> (d: Duration)
        ensures
            d@ == self@ - rhs.nanos(),
            d == Duration::from_nanos_spec(self@ - rhs.nanos()),
    {
        proof {
            use_type_invariant(&self);
            PrimitiveDateTime::lemma_from_nanos_spec(self@);
        }
        PrimitiveDateTime::from(self).duration_since(rhs)
    }
}

/// Whether a point in nanoseconds from the Unix epoch lies in range.
fn in_range(nanos: i128) -> (r: bool)
    ensures
        r == instant_fits(nanos as int),
{
    let day = crate::duration::NANOS_PER_DAY as i128;
    crate::calendar::MIN_DAY as i128 * day <= nanos && nanos < (crate::calendar::MAX_DAY as i128 + 1) * day
}

impl From<PrimitiveDateTime> for SystemTime {
    /// The point on the clock that the date-time, taken to be in UTC, names.
    fn from(datetime: PrimitiveDateTime) -> (r: SystemTime) {
        let epoch = PrimitiveDateTime::unix_epoch();
        let since = datetime.duration_since(epoch);
        proof {
            use_type_invariant(&datetime);
            datetime.lemma_valid();
            SystemTime::lemma_from_nanos_spec(datetime.nanos());
        }
        SystemTime::from_nanos_i128(since.whole_nanoseconds())
    }
}

impl vstd::std_specs::convert::FromSpecImpl<PrimitiveDateTime> for SystemTime {
    open spec fn obeys_from_spec() -> bool {
        true
    }

    open spec fn from_spec(datetime: PrimitiveDateTime) -> SystemTime {
        SystemTime::from_nanos_spec(datetime.nanos())
    }
}

impl From<SystemTime> for PrimitiveDateTime {
    /// The date-time in UTC at the point on the clock.
    fn from(time: SystemTime) -> (r: PrimitiveDateTime) {
        proof {
            use_type_invariant(&time);
            lemma_small_fits(time@);
        }
        PrimitiveDateTime::unix_epoch().add_duration(
            Duration::from_nanos_i128(time.nanos_since_unix_epoch()),
        )
    }
}

impl vstd::std_specs::convert::FromSpecImpl<SystemTime> for PrimitiveDateTime {
    open spec fn obeys_from_spec() -> bool {
        true
    }

    open spec fn from_spec(time: SystemTime) -> PrimitiveDateTime {
        PrimitiveDateTime::from_nanos_spec(time@)
    }
}

impl core::ops::Add<Duration> for SystemTime {
    type Output = SystemTime;

    /// The point `duration` later.
    fn add(self, duration: Duration) -> (r: SystemTime) {
        self.add_duration(duration)
    }
}

impl vstd::std_specs::ops::AddSpecImpl<Duration> for SystemTime {
    open spec fn obeys_add_spec() -> bool {
        true
    }

    open spec fn add_req(self, duration: Duration) -> bool {
        instant_fits(self@ + duration@)
    }

    open spec fn add_spec(self, duration: Duration) -> SystemTime {
        SystemTime::from_nanos_spec(self@ + duration@)
    }
}

impl core::ops::Sub<Duration> for SystemTime {
    type Output = SystemTime;

    /// The point `duration` earlier.
    fn sub(self, duration: Duration) -> (r: SystemTime) {
        self.sub_duration(duration)
    }
}

impl vstd::std_specs::ops::SubSpecImpl<Duration> for SystemTime {
    open spec fn obeys_sub_spec() -> bool {
        true
    }

    open spec fn sub_req(self, duration: Duration) -> bool {
        instant_fits(self@ - duration@)
    }

    open spec fn sub_spec(self, duration: Duration) -> SystemTime {
        SystemTime::from_nanos_spec(self@ - duration@)
    }
}

impl core::ops::Sub<PrimitiveDateTime> for SystemTime {
    type Output = Duration;

    /// The span from `rhs` to this point.
    fn sub(self, rhs: PrimitiveDateTime) -> (d: Duration) {
        self.duration_since_datetime(rhs)
    }
}

impl vstd::std_specs::ops::SubSpecImpl<PrimitiveDateTime> for SystemTime {
    open spec fn obeys_sub_spec() -> bool {
        true
    }

    open spec fn sub_req(self, rhs: PrimitiveDateTime) -> bool {
        true
    }

    open spec fn sub_spec(self, rhs: PrimitiveDateTime) -> Duration {
        Duration::from_nanos_spec(self@ - rhs.nanos())
    }
}

impl core::ops::Sub<SystemTime> for PrimitiveDateTime {
    type Output = Duration;

    /// The span from the point `rhs` to this date-time.
    fn sub(self, rhs: SystemTime) -> (d: Duration) {
        proof {
            use_type_invariant(&rhs);
            PrimitiveDateTime::lemma_from_nanos_spec(rhs@);
        }
        self.duration_since(PrimitiveDateTime::from(rhs))
    }
}

impl vstd::std_specs::ops::SubSpecImpl<SystemTime> for PrimitiveDateTime {
    open spec fn obeys_sub_spec() -> bool {
        true
    }

    open spec fn sub_req(self, rhs: SystemTime) -> bool {
        true
    }

    open spec fn sub_spec(self, rhs: SystemTime) -> Duration {
        Duration::from_nanos_spec(self.nanos() - rhs@)
    }
}

impl PrimitiveDateTime {
    /// The current date-time in UTC; `None` when the system clock lies out of range.
    pub fn now() -> (r: Option<PrimitiveDateTime>) {
        match SystemTime::now() {
            Some(t) => Some(PrimitiveDateTime::from(t)),
            None => None,
        }
    }
}

} // verus!

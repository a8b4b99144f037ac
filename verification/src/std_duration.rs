//! Unsigned spans of time, as the standard library's `core::time::Duration` holds them.
use vstd::prelude::*;

use crate::duration::NANOS_PER_SECOND;

verus! {

/// An unsigned span of time: whole seconds and the nanoseconds beyond them.
///
/// It holds the same values as `core::time::Duration`, which the library
/// cannot look inside.
#[derive(Clone, Copy, Debug, PartialEq, Eq, Hash, PartialOrd, Ord, Structural)]
pub struct StdDuration {
    secs: u64,
    nanos: u32,
}

/// `core::time::Duration::as_secs`: the whole seconds of the span.
#[verifier::external_body]
fn std_duration_secs(d: &core::time::Duration) -> u64 {
    d.as_secs()
}

/// `core::time::Duration::subsec_nanos`: the nanoseconds beyond the whole
/// seconds, which the documentation says are always below one billion.
#[verifier::external_body]
fn std_duration_subsec_nanos(d: &core::time::Duration) -> (r: u32)
    ensures
        r < NANOS_PER_SECOND,
{
    d.subsec_nanos()
}

impl View for StdDuration {
    type V = int;

    /// The span in nanoseconds.
    closed spec fn view(&self) -> int {
        self.secs * NANOS_PER_SECOND + self.nanos
    }
}

impl StdDuration {
    /// The nanoseconds are less than a second.
    #[verifier::type_invariant]
    pub closed spec fn inv(self) -> bool {
        self.nanos < NANOS_PER_SECOND
    }

    /// The largest span a `StdDuration` holds, in nanoseconds.
    pub open spec fn max_nanos() -> int {
        u64::MAX * NANOS_PER_SECOND + (NANOS_PER_SECOND - 1)
    }

    /// Every span lies between zero and `max_nanos()`.
    pub proof fn lemma_range(self)
        requires
            self.inv(),
        ensures
            0 <= self@ <= StdDuration::max_nanos(),
    {
    }

    /// The span of `secs` seconds plus `nanos` nanoseconds; nanoseconds beyond
    /// a second carry into the seconds.
    pub fn new(secs: u64, nanos: u32) -> (d: StdDuration)
        requires
            secs * NANOS_PER_SECOND + nanos <= StdDuration::max_nanos(),
        ensures
            d@ == secs * NANOS_PER_SECOND + nanos,
    {
        let carry = (nanos / NANOS_PER_SECOND as u32) as u64;
        proof {
            vstd::arithmetic::div_mod::lemma_fundamental_div_mod(nanos as int, NANOS_PER_SECOND as int);
            vstd::arithmetic::div_mod::lemma_mod_bound(nanos as int, NANOS_PER_SECOND as int);
        }
        StdDuration { secs: secs + carry, nanos: nanos % NANOS_PER_SECOND as u32 }
    }

    /// The span of `secs` seconds.
    pub fn from_secs(secs: u64) -> (d: StdDuration)
        ensures
            d@ == secs * NANOS_PER_SECOND,
    {
        StdDuration { secs, nanos: 0 }
    }

    /// The span of `millis` milliseconds.
    pub fn from_millis(millis: u64) -> (d: StdDuration)
        ensures
            d@ == millis * 1_000_000,
    {
        StdDuration { secs: millis / 1_000, nanos: ((millis % 1_000) * 1_000_000) as u32 }
    }

    /// The span of `micros` microseconds.
    pub fn from_micros(micros: u64) -> (d: StdDuration)
        ensures
            d@ == micros * 1_000,
    {
        StdDuration { secs: micros / 1_000_000, nanos: ((micros % 1_000_000) * 1_000) as u32 }
    }

    /// The span of `nanos` nanoseconds.
    pub fn from_nanos(nanos: u64) -> (d: StdDuration)
        ensures
            d@ == nanos,
    {
        proof {
            vstd::arithmetic::div_mod::lemma_fundamental_div_mod(nanos as int, NANOS_PER_SECOND as int);
        }
        StdDuration {
            secs: nanos / NANOS_PER_SECOND as u64,
            nanos: (nanos % NANOS_PER_SECOND as u64) as u32,
        }
    }

    /// The whole seconds of the span.
    pub fn as_secs(self) -> (r: u64)
        ensures
            r == self@ / NANOS_PER_SECOND as int,
    {
        proof {
            use_type_invariant(&self);
            vstd::arithmetic::div_mod::lemma_fundamental_div_mod_converse(
                self@,
                NANOS_PER_SECOND as int,
                self.secs as int,
                self.nanos as int,
            );
        }
        self.secs
    }

    /// The nanoseconds beyond the whole seconds.
    pub fn subsec_nanos(self) -> (r: u32)
        ensures
            r == self@ % NANOS_PER_SECOND as int,
            r < NANOS_PER_SECOND,
    {
        proof {
            use_type_invariant(&self);
            vstd::arithmetic::div_mod::lemma_fundamental_div_mod_converse(
                self@,
                NANOS_PER_SECOND as int,
                self.secs as int,
                self.nanos as int,
            );
        }
        self.nanos
    }

    /// The span that a standard library `core::time::Duration` holds, read
    /// through its whole seconds and the nanoseconds beyond them.
    pub fn from_std(d: &core::time::Duration) -> (r: StdDuration) {
        StdDuration { secs: std_duration_secs(d), nanos: std_duration_subsec_nanos(d) }
    }

    /// The span in nanoseconds.
    pub fn as_nanos(self) -> (r: u128)
        ensures
            r == self@,
    {
        proof {
            use_type_invariant(&self);
            assert(self.secs * NANOS_PER_SECOND <= u64::MAX * NANOS_PER_SECOND) by (nonlinear_arith)
                requires
                    self.secs <= u64::MAX,
            ;
        }
        self.secs as u128 * NANOS_PER_SECOND as u128 + self.nanos as u128
    }
}

} // verus!

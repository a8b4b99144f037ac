//! Ordering of date-times along the timeline.
use vstd::prelude::*;

use core::cmp::Ordering;

use crate::duration::Duration;
use crate::primitive_date_time::PrimitiveDateTime;
use crate::system_time::SystemTime;

verus! {

/// The order of two points in time given in nanoseconds.
pub open spec fn order_of(a: int, b: int) -> Ordering {
    if a < b {
        Ordering::Less
    } else if a == b {
        Ordering::Equal
    } else {
        Ordering::Greater
    }
}

impl PartialOrd for PrimitiveDateTime {
    /// Compares the dates, then the hours, minutes, seconds and nanoseconds.
    fn partial_cmp(&self, other: &PrimitiveDateTime) -> (r: Option<Ordering>) {
        proof {
            use_type_invariant(self);
            use_type_invariant(other);
            PrimitiveDateTime::lemma_lexicographic_order(*self, *other);
        }
        let (a, b) = (self.year(), other.year());
        if a < b {
            return Some(Ordering::Less);
        }
        if a > b {
            return Some(Ordering::Greater);
        }
        let (a, b) = (self.ordinal(), other.ordinal());
        if a < b {
            return Some(Ordering::Less);
        }
        if a > b {
            return Some(Ordering::Greater);
        }
        let (a, b) = (self.hour(), other.hour());
        if a < b {
            return Some(Ordering::Less);
        }
        if a > b {
            return Some(Ordering::Greater);
        }
        let (a, b) = (self.minute(), other.minute());
        if a < b {
            return Some(Ordering::Less);
        }
        if a > b {
            return Some(Ordering::Greater);
        }
        let (a, b) = (self.second(), other.second());
        if a < b {
            return Some(Ordering::Less);
        }
        if a > b {
            return Some(Ordering::Greater);
        }
        let (a, b) = (self.nanosecond(), other.nanosecond());
        if a < b {
            Some(Ordering::Less)
        } else if a > b {
            Some(Ordering::Greater)
        } else {
            Some(Ordering::Equal)
        }
    }
}

impl vstd::std_specs::cmp::PartialOrdSpecImpl for PrimitiveDateTime {
    open spec fn obeys_partial_cmp_spec() -> bool {
        true
    }

    /// Date-times are ordered by the points in time they name.
    open spec fn partial_cmp_spec(&self, other: &PrimitiveDateTime) -> Option<Ordering> {
        Some(order_of(self.nanos(), other.nanos()))
    }
}

impl PartialEq<SystemTime> for PrimitiveDateTime {
    /// Whether the date-time, taken to be in UTC, names the point on the clock.
    fn eq(&self, rhs: &SystemTime) -> (r: bool) {
        proof {
            use_type_invariant(self);
            use_type_invariant(rhs);
            rhs.lemma_valid();
            PrimitiveDateTime::lemma_from_nanos_spec(rhs@);
            if self.nanos() == rhs@ {
                PrimitiveDateTime::lemma_nanos_injective(
                    *self,
                    PrimitiveDateTime::from_nanos_spec(rhs@),
                );
            }
        }
        *self == PrimitiveDateTime::from(*rhs)
    }
}

impl vstd::std_specs::cmp::PartialEqSpecImpl<SystemTime> for PrimitiveDateTime {
    open spec fn obeys_eq_spec() -> bool {
        true
    }

    open spec fn eq_spec(&self, rhs: &SystemTime) -> bool {
        self.nanos() == rhs@
    }
}

impl PartialEq<PrimitiveDateTime> for SystemTime {
    /// Whether the point on the clock is the one the date-time, taken to be in UTC, names.
    fn eq(&self, rhs: &PrimitiveDateTime) -> (r: bool) {
        proof {
            use_type_invariant(self);
            use_type_invariant(rhs);
            self.lemma_valid();
            PrimitiveDateTime::lemma_from_nanos_spec(self@);
            if self@ == rhs.nanos() {
                PrimitiveDateTime::lemma_nanos_injective(
                    *rhs,
                    PrimitiveDateTime::from_nanos_spec(self@),
                );
            }
        }
        PrimitiveDateTime::from(*self) == *rhs
    }
}

impl vstd::std_specs::cmp::PartialEqSpecImpl<PrimitiveDateTime> for SystemTime {
    open spec fn obeys_eq_spec() -> bool {
        true
    }

    open spec fn eq_spec(&self, rhs: &PrimitiveDateTime) -> bool {
        self@ == rhs.nanos()
    }
}

impl PartialOrd<SystemTime> for PrimitiveDateTime {
    /// Orders the date-time, taken to be in UTC, against the point on the clock.
    fn partial_cmp(&self, other: &SystemTime) -> (r: Option<Ordering>) {
        proof {
            use_type_invariant(other);
            other.lemma_valid();
            PrimitiveDateTime::lemma_from_nanos_spec(other@);
        }
        let other = PrimitiveDateTime::from(*other);
        self.partial_cmp(&other)
    }
}

impl vstd::std_specs::cmp::PartialOrdSpecImpl<SystemTime> for PrimitiveDateTime {
    open spec fn obeys_partial_cmp_spec() -> bool {
        true
    }

    open spec fn partial_cmp_spec(&self, other: &SystemTime) -> Option<Ordering> {
        Some(order_of(self.nanos(), other@))
    }
}

impl PartialOrd<PrimitiveDateTime> for SystemTime {
    /// Orders the point on the clock against the date-time, taken to be in UTC.
    fn partial_cmp(&self, other: &PrimitiveDateTime) -> (r: Option<Ordering>) {
        proof {
            use_type_invariant(self);
            self.lemma_valid();
            PrimitiveDateTime::lemma_from_nanos_spec(self@);
        }
        let this = PrimitiveDateTime::from(*self);
        this.partial_cmp(other)
    }
}

impl vstd::std_specs::cmp::PartialOrdSpecImpl<PrimitiveDateTime> for SystemTime {
    open spec fn obeys_partial_cmp_spec() -> bool {
        true
    }

    open spec fn partial_cmp_spec(&self, other: &PrimitiveDateTime) -> Option<Ordering> {
        Some(order_of(self@, other.nanos()))
    }
}

impl PartialOrd for Duration {
    /// Compares the spans as signed numbers of nanoseconds.
    fn partial_cmp(&self, other: &Duration) -> (r: Option<Ordering>) {
        let (a, b) = (self.whole_nanoseconds(), other.whole_nanoseconds());
        if a < b {
            Some(Ordering::Less)
        } else if a > b {
            Some(Ordering::Greater)
        } else {
            Some(Ordering::Equal)
        }
    }
}

impl vstd::std_specs::cmp::PartialOrdSpecImpl for Duration {
    open spec fn obeys_partial_cmp_spec() -> bool {
        true
    }

    /// Durations are ordered by their spans, negative ones first.
    open spec fn partial_cmp_spec(&self, other: &Duration) -> Option<Ordering> {
        Some(order_of(self@, other@))
    }
}

} // verus!

//! Offsets from UTC, and date-times paired with one.
use vstd::prelude::*;

use crate::arith::trunc_div;
use crate::duration::NANOS_PER_SECOND;
use crate::primitive_date_time::PrimitiveDateTime;

verus! {

/// An offset from UTC, in seconds east of UTC.
#[derive(Clone, Copy, Debug, PartialEq, Eq, Hash, Structural)]
pub struct UtcOffset {
    seconds: i32,
}

impl UtcOffset {
    /// The offset in seconds east of UTC.
    pub closed spec fn spec_seconds(self) -> int {
        self.seconds as int
    }

    /// UTC itself: an offset of zero.
    pub fn utc() -> (r: UtcOffset)
        ensures
            r.spec_seconds() == 0,
    {
        UtcOffset { seconds: 0 }
    }

    /// The offset of `hours` hours east of UTC (west when negative).
    pub fn hours(hours: i8) -> (r: UtcOffset)
        requires
            -23 <= hours <= 23,
        ensures
            r.spec_seconds() == hours * 3_600,
    {
        UtcOffset { seconds: hours as i32 * 3_600 }
    }

    /// The offset of `minutes` minutes east of UTC (west when negative).
    pub fn minutes(minutes: i16) -> (r: UtcOffset)
        requires
            -1_439 <= minutes <= 1_439,
        ensures
            r.spec_seconds() == minutes * 60,
    {
        UtcOffset { seconds: minutes as i32 * 60 }
    }

    /// The offset of `seconds` seconds east of UTC (west when negative).
    pub fn seconds(seconds: i32) -> (r: UtcOffset)
        requires
            -86_399 <= seconds <= 86_399,
        ensures
            r.spec_seconds() == seconds,
    {
        UtcOffset { seconds }
    }

    /// The offset in seconds east of UTC.
    pub fn as_seconds(self) -> (r: i32)
        ensures
            r == self.spec_seconds(),
    {
        self.seconds
    }
}

/// A date-time in UTC together with an offset from UTC.
#[derive(Clone, Copy, Debug, PartialEq, Eq, Hash, Structural)]
pub struct OffsetDateTime {
    utc_datetime: PrimitiveDateTime,
    offset: UtcOffset,
}

impl OffsetDateTime {
    /// The date-time in UTC.
    pub closed spec fn spec_utc_datetime(self) -> PrimitiveDateTime {
        self.utc_datetime
    }

    /// The offset.
    pub closed spec fn spec_offset(self) -> UtcOffset {
        self.offset
    }

    /// The date-time in UTC.
    pub fn utc_datetime(self) -> (r: PrimitiveDateTime)
        ensures
            r == self.spec_utc_datetime(),
    {
        self.utc_datetime
    }

    /// The offset.
    pub fn offset(self) -> (r: UtcOffset)
        ensures
            r == self.spec_offset(),
    {
        self.offset
    }

    /// The Unix timestamp: whole seconds since 1970-01-01T00:00 UTC, rounded toward zero.
    pub fn timestamp(self) -> (r: i64)
        ensures
            r == trunc_div(self.spec_utc_datetime().nanos(), NANOS_PER_SECOND as int),
    {
        self.utc_datetime.timestamp()
    }
}

impl PrimitiveDateTime {
    /// This date-time, taken to be in UTC, paired with `offset`.
    pub fn using_offset(self, offset: UtcOffset) -> (r: OffsetDateTime)
        ensures
            r.spec_utc_datetime() == self,
            r.spec_offset() == offset,
    {
        OffsetDateTime { utc_datetime: self, offset }
    }
}

} // verus!

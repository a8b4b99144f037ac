//! Calendar dates, clock times and combined date-times without an offset.
use vstd::prelude::*;

pub mod arith;
pub mod calendar;
pub mod comparison;
pub mod date;
pub mod duration;
pub mod error;
pub mod format;
pub mod offset;
pub mod parse;
pub mod parsed;
pub mod primitive_date_time;
pub mod reading_back;
pub mod std_duration;
pub mod system_time;
pub mod text;
pub mod time;
pub mod weekday;

pub use calendar::{days_in_year, is_leap_year, weeks_in_year};
pub use date::Date;
pub use duration::Duration;
pub use error::{Component, ComponentRangeError};
pub use format::{parse_format, FormatItem, Padding, Specifier};
pub use offset::{OffsetDateTime, UtcOffset};
pub use parse::{parse_items, ParseError, ParsedItems};
pub use primitive_date_time::PrimitiveDateTime;
pub use std_duration::StdDuration;
pub use system_time::SystemTime;
pub use time::Time;
pub use weekday::Weekday;

verus! {

} // verus!

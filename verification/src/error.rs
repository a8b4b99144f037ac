//! Errors reported by the constructors and the parser.
use vstd::prelude::*;

verus! {

/// The component of a date or a time whose value was out of range.
#[derive(Clone, Copy, Debug, PartialEq, Eq, Hash, Structural)]
pub enum Component {
    Year,
    Month,
    Day,
    Ordinal,
    Week,
    Hour,
    Minute,
    Second,
    Millisecond,
    Microsecond,
    Nanosecond,
}

/// A value given for a component lay outside the range the component allows.
#[derive(Clone, Copy, Debug, PartialEq, Eq, Hash, Structural)]
pub struct ComponentRangeError {
    pub component: Component,
}

} // verus!

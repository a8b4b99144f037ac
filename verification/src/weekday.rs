//! Days of the week.
use vstd::prelude::*;

verus! {

/// A day of the week.
#[derive(Clone, Copy, Debug, PartialEq, Eq, Hash, Structural)]
pub enum Weekday {
    Monday,
    Tuesday,
    Wednesday,
    Thursday,
    Friday,
    Saturday,
    Sunday,
}

impl Weekday {
    /// Days since the preceding (or same) Monday: 0 for Monday, 6 for Sunday.
    pub open spec fn days_from_monday(self) -> int {
        match self {
            Weekday::Monday => 0,
            Weekday::Tuesday => 1,
            Weekday::Wednesday => 2,
            Weekday::Thursday => 3,
            Weekday::Friday => 4,
            Weekday::Saturday => 5,
            Weekday::Sunday => 6,
        }
    }

    /// The weekday that lies `n` days after a Monday (`n` may be negative).
    pub open spec fn after_monday(n: int) -> Weekday {
        let r = n % 7;
        if r == 0 {
            Weekday::Monday
        } else if r == 1 {
            Weekday::Tuesday
        } else if r == 2 {
            Weekday::Wednesday
        } else if r == 3 {
            Weekday::Thursday
        } else if r == 4 {
            Weekday::Friday
        } else if r == 5 {
            Weekday::Saturday
        } else {
            Weekday::Sunday
        }
    }

    /// A weekday is the one that lies its own distance after a Monday.
    pub proof fn lemma_after_monday_inverse(self)
        ensures
            Weekday::after_monday(self.days_from_monday()) == self,
            0 <= self.days_from_monday() < 7,
    {
    }

    /// The weekday before this one.
    pub fn previous(self) -> (r: Weekday)
        ensures
            r == Weekday::after_monday(self.days_from_monday() + 6),
    {
        match self {
            Weekday::Monday => Weekday::Sunday,
            Weekday::Tuesday => Weekday::Monday,
            Weekday::Wednesday => Weekday::Tuesday,
            Weekday::Thursday => Weekday::Wednesday,
            Weekday::Friday => Weekday::Thursday,
            Weekday::Saturday => Weekday::Friday,
            Weekday::Sunday => Weekday::Saturday,
        }
    }

    /// The weekday after this one.
    pub fn next(self) -> (r: Weekday)
        ensures
            r == Weekday::after_monday(self.days_from_monday() + 1),
    {
        match self {
            Weekday::Monday => Weekday::Tuesday,
            Weekday::Tuesday => Weekday::Wednesday,
            Weekday::Wednesday => Weekday::Thursday,
            Weekday::Thursday => Weekday::Friday,
            Weekday::Friday => Weekday::Saturday,
            Weekday::Saturday => Weekday::Sunday,
            Weekday::Sunday => Weekday::Monday,
        }
    }

    /// The ISO 8601 weekday number: 1 for Monday through 7 for Sunday.
    pub fn iso_weekday_number(self) -> (r: u8)
        ensures
            r == self.days_from_monday() + 1,
    {
        self.number_from_monday()
    }

    /// The day's number when counting from Monday = 1 to Sunday = 7.
    pub fn number_from_monday(self) -> (r: u8)
        ensures
            r == self.days_from_monday() + 1,
    {
        self.number_days_from_monday() + 1
    }

    /// The day's number when counting from Sunday = 1 to Saturday = 7.
    pub fn number_from_sunday(self) -> (r: u8)
        ensures
            r == (self.days_from_monday() + 1) % 7 + 1,
    {
        self.number_days_from_sunday() + 1
    }

    /// Days since the preceding (or same) Monday: 0 to 6.
    pub fn number_days_from_monday(self) -> (r: u8)
        ensures
            r == self.days_from_monday(),
    {
        match self {
            Weekday::Monday => 0,
            Weekday::Tuesday => 1,
            Weekday::Wednesday => 2,
            Weekday::Thursday => 3,
            Weekday::Friday => 4,
            Weekday::Saturday => 5,
            Weekday::Sunday => 6,
        }
    }

    /// Days since the preceding (or same) Sunday: 0 to 6.
    pub fn number_days_from_sunday(self) -> (r: u8)
        ensures
            r == (self.days_from_monday() + 1) % 7,
    {
        match self {
            Weekday::Monday => 1,
            Weekday::Tuesday => 2,
            Weekday::Wednesday => 3,
            Weekday::Thursday => 4,
            Weekday::Friday => 5,
            Weekday::Saturday => 6,
            Weekday::Sunday => 0,
        }
    }
}

} // verus!

//! Format descriptions (`%Y-%m-%d` and the like) and rendering date-times with them.
use vstd::prelude::*;

use crate::arith::{trunc_div, trunc_rem};
use crate::primitive_date_time::PrimitiveDateTime;
use crate::text::push_str;
use crate::weekday::Weekday;

verus! {

/// How a number is padded to the width of its specifier.
#[derive(Clone, Copy, Debug, PartialEq, Eq, Hash, Structural)]
pub enum Padding {
    /// The specifier's own padding.
    Default,
    /// No padding (`%-`).
    Unpadded,
    /// Leading spaces (`%_`).
    Space,
    /// Leading zeros (`%0`).
    Zero,
}

/// A conversion specifier: the letter after `%`.
#[derive(Clone, Copy, Debug, PartialEq, Eq, Hash, Structural)]
pub enum Specifier {
    /// `%a`: abbreviated weekday name.
    WeekdayShort,
    /// `%A`: full weekday name.
    WeekdayLong,
    /// `%b`: abbreviated month name.
    MonthShort,
    /// `%B`: full month name.
    MonthLong,
    /// `%c`: date and time, as `%a %b %-d %-H:%M:%S %-Y`.
    DateTime,
    /// `%C`: the year divided by 100.
    Century,
    /// `%d`: day of the month.
    Day,
    /// `%D`: the date as `%-m/%d/%y`.
    MonthDayYear,
    /// `%F`: the date as `%-Y-%m-%d`.
    IsoDate,
    /// `%g`: the last two digits of the ISO week-based year.
    IsoYearShort,
    /// `%G`: the ISO week-based year.
    IsoYear,
    /// `%H`: hour of the 24-hour clock.
    Hour24,
    /// `%I`: hour of the 12-hour clock.
    Hour12,
    /// `%j`: day of the year.
    Ordinal,
    /// `%m`: month number.
    Month,
    /// `%M`: minute.
    Minute,
    /// `%N`: nanoseconds within the second, always nine digits.
    Nanosecond,
    /// `%p`: `am` or `pm`.
    AmPmLower,
    /// `%P`: `AM` or `PM`.
    AmPmUpper,
    /// `%r`: 12-hour clock time, as `%-I:%M:%S %p`.
    Time12,
    /// `%R`: hour and minute, as `%-H:%M`.
    HourMinute,
    /// `%S`: second.
    Second,
    /// `%T`: 24-hour clock time, as `%-H:%M:%S`.
    Time24,
    /// `%u`: ISO weekday number, Monday = 1.
    IsoWeekdayNumber,
    /// `%U`: week of the year, weeks starting on Sunday.
    SundayWeek,
    /// `%V`: ISO week number.
    IsoWeek,
    /// `%w`: weekday number, Sunday = 0.
    WeekdayFromSunday,
    /// `%W`: week of the year, weeks starting on Monday.
    MondayWeek,
    /// `%y`: the last two digits of the year.
    YearShort,
    /// `%Y`: the year, with `+` before years of five digits or more.
    Year,
    /// `%z`: UTC offset, which a date-time without an offset cannot supply.
    Offset,
}

/// One element of a format description.
#[derive(Clone, Copy, Debug, PartialEq, Eq, Hash, Structural)]
pub enum FormatItem {
    /// A character written as it is.
    Literal(char),
    /// A specifier, with its padding.
    Component(Specifier, Padding),
}

/// The specifier that the letter `c` names, if any.
pub open spec fn specifier_of(c: char) -> Option<Specifier> {
    if c == 'a' {
        Some(Specifier::WeekdayShort)
    } else if c == 'A' {
        Some(Specifier::WeekdayLong)
    } else if c == 'b' {
        Some(Specifier::MonthShort)
    } else if c == 'B' {
        Some(Specifier::MonthLong)
    } else if c == 'c' {
        Some(Specifier::DateTime)
    } else if c == 'C' {
        Some(Specifier::Century)
    } else if c == 'd' {
        Some(Specifier::Day)
    } else if c == 'D' {
        Some(Specifier::MonthDayYear)
    } else if c == 'F' {
        Some(Specifier::IsoDate)
    } else if c == 'g' {
        Some(Specifier::IsoYearShort)
    } else if c == 'G' {
        Some(Specifier::IsoYear)
    } else if c == 'H' {
        Some(Specifier::Hour24)
    } else if c == 'I' {
        Some(Specifier::Hour12)
    } else if c == 'j' {
        Some(Specifier::Ordinal)
    } else if c == 'm' {
        Some(Specifier::Month)
    } else if c == 'M' {
        Some(Specifier::Minute)
    } else if c == 'N' {
        Some(Specifier::Nanosecond)
    } else if c == 'p' {
        Some(Specifier::AmPmLower)
    } else if c == 'P' {
        Some(Specifier::AmPmUpper)
    } else if c == 'r' {
        Some(Specifier::Time12)
    } else if c == 'R' {
        Some(Specifier::HourMinute)
    } else if c == 'S' {
        Some(Specifier::Second)
    } else if c == 'T' {
        Some(Specifier::Time24)
    } else if c == 'u' {
        Some(Specifier::IsoWeekdayNumber)
    } else if c == 'U' {
        Some(Specifier::SundayWeek)
    } else if c == 'V' {
        Some(Specifier::IsoWeek)
    } else if c == 'w' {
        Some(Specifier::WeekdayFromSunday)
    } else if c == 'W' {
        Some(Specifier::MondayWeek)
    } else if c == 'y' {
        Some(Specifier::YearShort)
    } else if c == 'Y' {
        Some(Specifier::Year)
    } else if c == 'z' {
        Some(Specifier::Offset)
    } else {
        None
    }
}

/// The padding that the modifier character `c` after `%` asks for, if any.
pub open spec fn padding_of(c: char) -> Option<Padding> {
    if c == '-' {
        Some(Padding::Unpadded)
    } else if c == '_' {
        Some(Padding::Space)
    } else if c == '0' {
        Some(Padding::Zero)
    } else {
        None
    }
}

/// Prepends `item` to the items of a successful parse.
pub open spec fn prepend(item: FormatItem, rest: Option<Seq<FormatItem>>) -> Option<
    Seq<FormatItem>,
> {
    match rest {
        Some(items) => Some(seq![item] + items),
        None => None,
    }
}

/// The items of a format description, or `None` when it is malformed: when a
/// `%` ends it or is followed by anything but an optional padding modifier
/// and a specifier letter, or by a second `%` for a literal `%`.
pub open spec fn parse_format_spec(s: Seq<char>) -> Option<Seq<FormatItem>>
    decreases s.len(),
{
    if s.len() == 0 {
        Some(seq![])
    } else if s[0] != '%' {
        prepend(FormatItem::Literal(s[0]), parse_format_spec(s.drop_first()))
    } else if s.len() < 2 {
        None
    } else if s[1] == '%' {
        prepend(FormatItem::Literal('%'), parse_format_spec(s.subrange(2, s.len() as int)))
    } else {
        let (padding, at) = match padding_of(s[1]) {
            Some(p) => (p, 2int),
            None => (Padding::Default, 1int),
        };
        if at >= s.len() {
            None
        } else {
            match specifier_of(s[at]) {
                Some(spec) => prepend(
                    FormatItem::Component(spec, padding),
                    parse_format_spec(s.subrange(at + 1, s.len() as int)),
                ),
                None => None,
            }
        }
    }
}

/// Whether an item asks for a UTC offset.
pub open spec fn is_offset_item(item: FormatItem) -> bool {
    item matches FormatItem::Component(Specifier::Offset, _)
}

/// Whether any item asks for a UTC offset.
pub open spec fn needs_offset(items: Seq<FormatItem>) -> bool {
    exists|i: int| 0 <= i < items.len() && #[trigger] is_offset_item(items[i])
}

/// The decimal digit character for `d` in `0..10`.
pub open spec fn digit_char(d: int) -> char {
    if d == 0 {
        '0'
    } else if d == 1 {
        '1'
    } else if d == 2 {
        '2'
    } else if d == 3 {
        '3'
    } else if d == 4 {
        '4'
    } else if d == 5 {
        '5'
    } else if d == 6 {
        '6'
    } else if d == 7 {
        '7'
    } else if d == 8 {
        '8'
    } else {
        '9'
    }
}

/// The decimal digits of `n`, without leading zeros (`0` for zero).
pub open spec fn decimal(n: nat) -> Seq<char>
    decreases n,
{
    if n < 10 {
        seq![digit_char(n as int)]
    } else {
        decimal(n / 10).push(digit_char((n % 10) as int))
    }
}

/// `n` copies of `c` (none when `n` is not positive).
pub open spec fn repeat(c: char, n: int) -> Seq<char> {
    Seq::new(if n > 0 { n as nat } else { 0 }, |i: int| c)
}

/// `v` in decimal, padded to `width` characters as Rust's `{}`, `{:width$}`
/// and `{:0width$}` do.
pub open spec fn render_int(v: int, width: int, padding: Padding) -> Seq<char> {
    let body = decimal((if v < 0 { -v } else { v }) as nat);
    let sign: Seq<char> = if v < 0 {
        seq!['-']
    } else {
        seq![]
    };
    let fill = width - (sign.len() + body.len());
    if padding == Padding::Space {
        repeat(' ', fill) + sign + body
    } else if padding == Padding::Zero {
        sign + repeat('0', fill) + body
    } else {
        sign + body
    }
}

/// The padding in effect: the one asked for, or the specifier's own.
pub open spec fn effective(padding: Padding, default: Padding) -> Padding {
    if padding == Padding::Default {
        default
    } else {
        padding
    }
}

/// The English name of a weekday, full or abbreviated to three letters.
pub open spec fn weekday_name(w: Weekday, short: bool) -> Seq<char> {
    let full = match w {
        Weekday::Monday => "Monday"@,
        Weekday::Tuesday => "Tuesday"@,
        Weekday::Wednesday => "Wednesday"@,
        Weekday::Thursday => "Thursday"@,
        Weekday::Friday => "Friday"@,
        Weekday::Saturday => "Saturday"@,
        Weekday::Sunday => "Sunday"@,
    };
    let abbreviated = match w {
        Weekday::Monday => "Mon"@,
        Weekday::Tuesday => "Tue"@,
        Weekday::Wednesday => "Wed"@,
        Weekday::Thursday => "Thu"@,
        Weekday::Friday => "Fri"@,
        Weekday::Saturday => "Sat"@,
        Weekday::Sunday => "Sun"@,
    };
    if short {
        abbreviated
    } else {
        full
    }
}

/// The English name of month `m` (1-12), full or abbreviated to three letters.
pub open spec fn month_name(m: int, short: bool) -> Seq<char> {
    let full = if m == 1 {
        "January"@
    } else if m == 2 {
        "February"@
    } else if m == 3 {
        "March"@
    } else if m == 4 {
        "April"@
    } else if m == 5 {
        "May"@
    } else if m == 6 {
        "June"@
    } else if m == 7 {
        "July"@
    } else if m == 8 {
        "August"@
    } else if m == 9 {
        "September"@
    } else if m == 10 {
        "October"@
    } else if m == 11 {
        "November"@
    } else {
        "December"@
    };
    let abbreviated = if m == 1 {
        "Jan"@
    } else if m == 2 {
        "Feb"@
    } else if m == 3 {
        "Mar"@
    } else if m == 4 {
        "Apr"@
    } else if m == 5 {
        "May"@
    } else if m == 6 {
        "Jun"@
    } else if m == 7 {
        "Jul"@
    } else if m == 8 {
        "Aug"@
    } else if m == 9 {
        "Sep"@
    } else if m == 10 {
        "Oct"@
    } else if m == 11 {
        "Nov"@
    } else {
        "Dec"@
    };
    if short {
        abbreviated
    } else {
        full
    }
}

/// The English names of the months, January first.
pub open spec fn english_month_names() -> Seq<Seq<char>> {
    seq![
        "January"@,
        "February"@,
        "March"@,
        "April"@,
        "May"@,
        "June"@,
        "July"@,
        "August"@,
        "September"@,
        "October"@,
        "November"@,
        "December"@,
    ]
}

/// The English names of the weekdays, Monday first.
pub open spec fn english_weekday_names() -> Seq<Seq<char>> {
    seq![
        "Monday"@,
        "Tuesday"@,
        "Wednesday"@,
        "Thursday"@,
        "Friday"@,
        "Saturday"@,
        "Sunday"@,
    ]
}

/// The first three letters of the English name of month `m` (1-12).
pub open spec fn month_initials(m: int) -> (char, char, char) {
    if m == 1 {
        ('J', 'a', 'n')
    } else if m == 2 {
        ('F', 'e', 'b')
    } else if m == 3 {
        ('M', 'a', 'r')
    } else if m == 4 {
        ('A', 'p', 'r')
    } else if m == 5 {
        ('M', 'a', 'y')
    } else if m == 6 {
        ('J', 'u', 'n')
    } else if m == 7 {
        ('J', 'u', 'l')
    } else if m == 8 {
        ('A', 'u', 'g')
    } else if m == 9 {
        ('S', 'e', 'p')
    } else if m == 10 {
        ('O', 'c', 't')
    } else if m == 11 {
        ('N', 'o', 'v')
    } else if m == 12 {
        ('D', 'e', 'c')
    } else {
        (' ', ' ', ' ')
    }
}

/// The first three letters of the English name of a weekday.
pub open spec fn weekday_initials(w: Weekday) -> (char, char, char) {
    match w {
        Weekday::Monday => ('M', 'o', 'n'),
        Weekday::Tuesday => ('T', 'u', 'e'),
        Weekday::Wednesday => ('W', 'e', 'd'),
        Weekday::Thursday => ('T', 'h', 'u'),
        Weekday::Friday => ('F', 'r', 'i'),
        Weekday::Saturday => ('S', 'a', 't'),
        Weekday::Sunday => ('S', 'u', 'n'),
    }
}

/// `%B` writes the English name of the month, and `%b` its first three
/// letters: month 1 is January, month 6 June, month 12 December.
pub proof fn lemma_month_names(m: int)
    requires
        1 <= m <= 12,
    ensures
        month_name(m, false) == english_month_names()[m - 1],
        month_name(m, true) == english_month_names()[m - 1].subrange(0, 3),
        month_name(m, false).len() >= 3,
        ({
            let (a, b, c) = month_initials(m);
            &&& month_name(m, false)[0] == a && month_name(m, false)[1] == b
                && month_name(m, false)[2] == c
            &&& month_name(m, true)[0] == a && month_name(m, true)[1] == b
                && month_name(m, true)[2] == c
        }),
{
    if m == 1 {
        reveal_strlit("January");
        reveal_strlit("Jan");
        assert(month_name(m, true) =~= english_month_names()[m - 1].subrange(0, 3));
    } else if m == 2 {
        reveal_strlit("February");
        reveal_strlit("Feb");
        assert(month_name(m, true) =~= english_month_names()[m - 1].subrange(0, 3));
    } else if m == 3 {
        reveal_strlit("March");
        reveal_strlit("Mar");
        assert(month_name(m, true) =~= english_month_names()[m - 1].subrange(0, 3));
    } else if m == 4 {
        reveal_strlit("April");
        reveal_strlit("Apr");
        assert(month_name(m, true) =~= english_month_names()[m - 1].subrange(0, 3));
    } else if m == 5 {
        reveal_strlit("May");
        reveal_strlit("May");
        assert(month_name(m, true) =~= english_month_names()[m - 1].subrange(0, 3));
    } else if m == 6 {
        reveal_strlit("June");
        reveal_strlit("Jun");
        assert(month_name(m, true) =~= english_month_names()[m - 1].subrange(0, 3));
    } else if m == 7 {
        reveal_strlit("July");
        reveal_strlit("Jul");
        assert(month_name(m, true) =~= english_month_names()[m - 1].subrange(0, 3));
    } else if m == 8 {
        reveal_strlit("August");
        reveal_strlit("Aug");
        assert(month_name(m, true) =~= english_month_names()[m - 1].subrange(0, 3));
    } else if m == 9 {
        reveal_strlit("September");
        reveal_strlit("Sep");
        assert(month_name(m, true) =~= english_month_names()[m - 1].subrange(0, 3));
    } else if m == 10 {
        reveal_strlit("October");
        reveal_strlit("Oct");
        assert(month_name(m, true) =~= english_month_names()[m - 1].subrange(0, 3));
    } else if m == 11 {
        reveal_strlit("November");
        reveal_strlit("Nov");
        assert(month_name(m, true) =~= english_month_names()[m - 1].subrange(0, 3));
    } else if m == 12 {
        reveal_strlit("December");
        reveal_strlit("Dec");
        assert(month_name(m, true) =~= english_month_names()[m - 1].subrange(0, 3));
    }
}

/// `%A` writes the English name of the weekday, and `%a` its first three
/// letters: Monday, Tuesday and so on to Sunday.
pub proof fn lemma_weekday_names(w: Weekday)
    ensures
        weekday_name(w, false) == english_weekday_names()[w.days_from_monday()],
        weekday_name(w, true) == english_weekday_names()[w.days_from_monday()].subrange(0, 3),
        weekday_name(w, false).len() >= 3,
        ({
            let (a, b, c) = weekday_initials(w);
            &&& weekday_name(w, false)[0] == a && weekday_name(w, false)[1] == b
                && weekday_name(w, false)[2] == c
            &&& weekday_name(w, true)[0] == a && weekday_name(w, true)[1] == b
                && weekday_name(w, true)[2] == c
        }),
{
    match w {
        Weekday::Monday => {
            reveal_strlit("Monday");
            reveal_strlit("Mon");
            assert(weekday_name(w, true) =~= english_weekday_names()[w.days_from_monday()].subrange(0, 3));
        },
        Weekday::Tuesday => {
            reveal_strlit("Tuesday");
            reveal_strlit("Tue");
            assert(weekday_name(w, true) =~= english_weekday_names()[w.days_from_monday()].subrange(0, 3));
        },
        Weekday::Wednesday => {
            reveal_strlit("Wednesday");
            reveal_strlit("Wed");
            assert(weekday_name(w, true) =~= english_weekday_names()[w.days_from_monday()].subrange(0, 3));
        },
        Weekday::Thursday => {
            reveal_strlit("Thursday");
            reveal_strlit("Thu");
            assert(weekday_name(w, true) =~= english_weekday_names()[w.days_from_monday()].subrange(0, 3));
        },
        Weekday::Friday => {
            reveal_strlit("Friday");
            reveal_strlit("Fri");
            assert(weekday_name(w, true) =~= english_weekday_names()[w.days_from_monday()].subrange(0, 3));
        },
        Weekday::Saturday => {
            reveal_strlit("Saturday");
            reveal_strlit("Sat");
            assert(weekday_name(w, true) =~= english_weekday_names()[w.days_from_monday()].subrange(0, 3));
        },
        Weekday::Sunday => {
            reveal_strlit("Sunday");
            reveal_strlit("Sun");
            assert(weekday_name(w, true) =~= english_weekday_names()[w.days_from_monday()].subrange(0, 3));
        },
    }
}

/// Different months, and different weekdays, have names that differ in
/// their first three letters.
pub proof fn lemma_initials_distinct(a: int, b: int, v: Weekday, w: Weekday)
    ensures
        1 <= a <= 12 && 1 <= b <= 12 && month_initials(a) == month_initials(b) ==> a == b,
        weekday_initials(v) == weekday_initials(w) ==> v == w,
{
}

/// A year as `%Y` writes it: a `+` before years from 10,000 on, then the
/// number padded to four places.
pub open spec fn render_year(year: int, padding: Padding) -> Seq<char> {
    let sign: Seq<char> = if year >= 10_000 {
        seq!['+']
    } else {
        seq![]
    };
    sign + render_int(year, 4, effective(padding, Padding::Zero))
}

/// The hour on the 12-hour clock (1-12) of hour `h` (0-23).
pub open spec fn hour12(h: int) -> int {
    (h + 11) % 12 + 1
}

/// What a specifier writes for a date-time.
pub open spec fn render_component(spec: Specifier, padding: Padding, dt: PrimitiveDateTime) -> Seq<char> {
    let date = dt.spec_date();
    let time = dt.spec_time();
    let year = date.spec_year();
    let hour = time.spec_hour();
    match spec {
        Specifier::WeekdayShort => weekday_name(date.spec_weekday(), true),
        Specifier::WeekdayLong => weekday_name(date.spec_weekday(), false),
        Specifier::MonthShort => month_name(date.spec_month(), true),
        Specifier::MonthLong => month_name(date.spec_month(), false),
        Specifier::DateTime => weekday_name(date.spec_weekday(), true) + seq![' '] + month_name(
            date.spec_month(),
            true,
        ) + seq![' '] + render_int(date.spec_day(), 2, Padding::Unpadded) + seq![' '] + render_int(
            hour,
            2,
            Padding::Unpadded,
        ) + seq![':'] + render_int(time.spec_minute(), 2, Padding::Zero) + seq![':'] + render_int(
            time.spec_second(),
            2,
            Padding::Zero,
        ) + seq![' '] + render_year(year, Padding::Unpadded),
        Specifier::Century => render_int(
            trunc_div(year, 100),
            2,
            effective(padding, Padding::Zero),
        ),
        Specifier::Day => render_int(date.spec_day(), 2, effective(padding, Padding::Zero)),
        Specifier::MonthDayYear => render_int(date.spec_month(), 2, Padding::Unpadded) + seq!['/']
            + render_int(date.spec_day(), 2, Padding::Zero) + seq!['/'] + render_int(
            trunc_rem(year, 100),
            2,
            Padding::Zero,
        ),
        Specifier::IsoDate => render_year(year, Padding::Unpadded) + seq!['-'] + render_int(
            date.spec_month(),
            2,
            Padding::Zero,
        ) + seq!['-'] + render_int(date.spec_day(), 2, Padding::Zero),
        Specifier::IsoYearShort => render_int(
            trunc_rem(date.spec_iso_year(), 100),
            2,
            effective(padding, Padding::Zero),
        ),
        Specifier::IsoYear => render_year(date.spec_iso_year(), padding),
        Specifier::Hour24 => render_int(hour, 2, effective(padding, Padding::Zero)),
        Specifier::Hour12 => render_int(hour12(hour), 2, effective(padding, Padding::Zero)),
        Specifier::Ordinal => render_int(date.spec_ordinal(), 3, effective(padding, Padding::Zero)),
        Specifier::Month => render_int(date.spec_month(), 2, effective(padding, Padding::Zero)),
        Specifier::Minute => render_int(time.spec_minute(), 2, effective(padding, Padding::Zero)),
        Specifier::Nanosecond => render_int(time.spec_nanosecond(), 9, Padding::Zero),
        Specifier::AmPmLower => if hour < 12 {
            "am"@
        } else {
            "pm"@
        },
        Specifier::AmPmUpper => if hour < 12 {
            "AM"@
        } else {
            "PM"@
        },
        Specifier::Time12 => render_int(hour12(hour), 2, Padding::Unpadded) + seq![':'] + render_int(
            time.spec_minute(),
            2,
            Padding::Zero,
        ) + seq![':'] + render_int(time.spec_second(), 2, Padding::Zero) + seq![' '] + (if hour
            < 12 {
            "am"@
        } else {
            "pm"@
        }),
        Specifier::HourMinute => render_int(hour, 2, Padding::Unpadded) + seq![':'] + render_int(
            time.spec_minute(),
            2,
            Padding::Zero,
        ),
        Specifier::Second => render_int(time.spec_second(), 2, effective(padding, Padding::Zero)),
        Specifier::Time24 => render_int(hour, 2, Padding::Unpadded) + seq![':'] + render_int(
            time.spec_minute(),
            2,
            Padding::Zero,
        ) + seq![':'] + render_int(time.spec_second(), 2, Padding::Zero),
        Specifier::IsoWeekdayNumber => render_int(
            date.spec_weekday().days_from_monday() + 1,
            1,
            Padding::Unpadded,
        ),
        Specifier::SundayWeek => render_int(
            date.spec_sunday_based_week(),
            2,
            effective(padding, Padding::Zero),
        ),
        Specifier::IsoWeek => render_int(date.spec_iso_week(), 2, effective(padding, Padding::Zero)),
        Specifier::WeekdayFromSunday => render_int(
            (date.spec_weekday().days_from_monday() + 1) % 7,
            1,
            Padding::Unpadded,
        ),
        Specifier::MondayWeek => render_int(
            date.spec_monday_based_week(),
            2,
            effective(padding, Padding::Zero),
        ),
        Specifier::YearShort => render_int(
            trunc_rem(year, 100),
            2,
            effective(padding, Padding::Zero),
        ),
        Specifier::Year => render_year(year, padding),
        Specifier::Offset => seq![],
    }
}

/// What an item writes for a date-time.
pub open spec fn render_item(item: FormatItem, dt: PrimitiveDateTime) -> Seq<char> {
    match item {
        FormatItem::Literal(c) => seq![c],
        FormatItem::Component(spec, padding) => render_component(spec, padding, dt),
    }
}

/// What a sequence of items writes for a date-time, item after item.
pub open spec fn render(items: Seq<FormatItem>, dt: PrimitiveDateTime) -> Seq<char>
    decreases items.len(),
{
    if items.len() == 0 {
        seq![]
    } else {
        render(items.drop_last(), dt) + render_item(items.last(), dt)
    }
}

/// The specifier that the letter `c` names, if any.
fn specifier_of_exec(c: char) -> (r: Option<Specifier>)
    ensures
        r == specifier_of(c),
{
    match c {
        'a' => Some(Specifier::WeekdayShort),
        'A' => Some(Specifier::WeekdayLong),
        'b' => Some(Specifier::MonthShort),
        'B' => Some(Specifier::MonthLong),
        'c' => Some(Specifier::DateTime),
        'C' => Some(Specifier::Century),
        'd' => Some(Specifier::Day),
        'D' => Some(Specifier::MonthDayYear),
        'F' => Some(Specifier::IsoDate),
        'g' => Some(Specifier::IsoYearShort),
        'G' => Some(Specifier::IsoYear),
        'H' => Some(Specifier::Hour24),
        'I' => Some(Specifier::Hour12),
        'j' => Some(Specifier::Ordinal),
        'm' => Some(Specifier::Month),
        'M' => Some(Specifier::Minute),
        'N' => Some(Specifier::Nanosecond),
        'p' => Some(Specifier::AmPmLower),
        'P' => Some(Specifier::AmPmUpper),
        'r' => Some(Specifier::Time12),
        'R' => Some(Specifier::HourMinute),
        'S' => Some(Specifier::Second),
        'T' => Some(Specifier::Time24),
        'u' => Some(Specifier::IsoWeekdayNumber),
        'U' => Some(Specifier::SundayWeek),
        'V' => Some(Specifier::IsoWeek),
        'w' => Some(Specifier::WeekdayFromSunday),
        'W' => Some(Specifier::MondayWeek),
        'y' => Some(Specifier::YearShort),
        'Y' => Some(Specifier::Year),
        'z' => Some(Specifier::Offset),
        _ => None,
    }
}

/// The padding that the modifier character `c` asks for, if any.
fn padding_of_exec(c: char) -> (r: Option<Padding>)
    ensures
        r == padding_of(c),
{
    match c {
        '-' => Some(Padding::Unpadded),
        '_' => Some(Padding::Space),
        '0' => Some(Padding::Zero),
        _ => None,
    }
}

/// Prepends the items `prefix` to the items of a successful parse.
pub open spec fn prepend_all(prefix: Seq<FormatItem>, rest: Option<Seq<FormatItem>>) -> Option<
    Seq<FormatItem>,
> {
    match rest {
        Some(items) => Some(prefix + items),
        None => None,
    }
}

/// The items of the format description `format`; `None` when it is malformed.
pub fn parse_format(format: &str) -> (r: Option<Vec<FormatItem>>)
    ensures
        match r {
            Some(items) => parse_format_spec(format@) == Some(items@),
            None => parse_format_spec(format@) is None,
        },
{
    let chars = crate::text::chars_of(format);
    let n = chars.len();
    let mut items: Vec<FormatItem> = Vec::new();
    let mut i: usize = 0;
    assert(chars@.subrange(0, n as int) =~= chars@);
    while i < n
        invariant
            n == chars@.len(),
            chars@ == format@,
            i <= n,
            parse_format_spec(chars@) == prepend_all(
                items@,
                parse_format_spec(chars@.subrange(i as int, n as int)),
            ),
        decreases n - i,
    {
        let ghost rest = chars@.subrange(i as int, n as int);
        let c = chars[i];
        if c != '%' {
            assert(rest.drop_first() =~= chars@.subrange(i + 1, n as int));
            proof {
                lemma_prepend_assoc(items@, FormatItem::Literal(c), parse_format_spec(rest.drop_first()));
            }
            items.push(FormatItem::Literal(c));
            i = i + 1;
        } else if i + 1 >= n {
            return None;
        } else if chars[i + 1] == '%' {
            assert(rest.subrange(2, rest.len() as int) =~= chars@.subrange(i + 2, n as int));
            proof {
                lemma_prepend_assoc(
                    items@,
                    FormatItem::Literal('%'),
                    parse_format_spec(rest.subrange(2, rest.len() as int)),
                );
            }
            items.push(FormatItem::Literal('%'));
            i = i + 2;
        } else {
            let (padding, at) = match padding_of_exec(chars[i + 1]) {
                Some(p) => (p, i + 2),
                None => (Padding::Default, i + 1),
            };
            if at >= n {
                return None;
            }
            match specifier_of_exec(chars[at]) {
                Some(spec) => {
                    let item = FormatItem::Component(spec, padding);
                    assert(rest.subrange(at - i + 1, rest.len() as int) =~= chars@.subrange(
                        at + 1,
                        n as int,
                    ));
                    proof {
                        lemma_prepend_assoc(
                            items@,
                            item,
                            parse_format_spec(rest.subrange(at - i + 1, rest.len() as int)),
                        );
                    }
                    items.push(item);
                    i = at + 1;
                },
                None => {
                    return None;
                },
            }
        }
    }
    assert(chars@.subrange(n as int, n as int) =~= Seq::<char>::empty());
    assert(items@ + Seq::<FormatItem>::empty() =~= items@);
    Some(items)
}

/// Prepending items one at a time, or all at once, gives the same result.
proof fn lemma_prepend_assoc(prefix: Seq<FormatItem>, item: FormatItem, rest: Option<Seq<FormatItem>>)
    ensures
        prepend_all(prefix, prepend(item, rest)) == prepend_all(prefix.push(item), rest),
{
    match rest {
        Some(r) => {
            assert(prefix + (seq![item] + r) =~= prefix.push(item) + r);
        },
        None => {},
    }
}

/// The decimal digit character for `d` in `0..10`.
fn digit_char_exec(d: u64) -> (c: char)
    requires
        d < 10,
    ensures
        c == digit_char(d as int),
{
    match d {
        0 => '0',
        1 => '1',
        2 => '2',
        3 => '3',
        4 => '4',
        5 => '5',
        6 => '6',
        7 => '7',
        8 => '8',
        _ => '9',
    }
}

/// Appends the decimal digits of `n`.
fn push_decimal(out: &mut Vec<char>, n: u64)
    ensures
        final(out)@ == old(out)@ + decimal(n as nat),
    decreases n,
{
    if n >= 10 {
        push_decimal(out, n / 10);
    }
    out.push(digit_char_exec(n % 10));
    proof {
        if n >= 10 {
            assert(old(out)@ + decimal((n / 10) as nat) + seq![digit_char((n % 10) as int)]
                =~= old(out)@ + decimal(n as nat));
        } else {
            assert(old(out)@ + seq![digit_char((n % 10) as int)] =~= old(out)@ + decimal(n as nat));
        }
    }
}

/// Appends `count` copies of `c`.
fn push_repeat(out: &mut Vec<char>, c: char, count: u64)
    ensures
        final(out)@ == old(out)@ + repeat(c, count as int),
{
    let mut i: u64 = 0;
    while i < count
        invariant
            i <= count,
            out@ == old(out)@ + repeat(c, i as int),
        decreases count - i,
    {
        out.push(c);
        i = i + 1;
        assert(old(out)@ + repeat(c, (i - 1) as int) + seq![c] =~= old(out)@ + repeat(c, i as int));
    }
}

/// Appends `v` in decimal, padded to `width` characters.
fn push_int(out: &mut Vec<char>, v: i64, width: u64, padding: Padding)
    requires
        v > i64::MIN,
        width <= 9,
    ensures
        final(out)@ == old(out)@ + render_int(v as int, width as int, padding),
{
    let mut body: Vec<char> = Vec::new();
    let magnitude = if v < 0 {
        -v
    } else {
        v
    } as u64;
    push_decimal(&mut body, magnitude);
    let ghost body_seq = body@;
    assert(body_seq =~= decimal((if v < 0 { -v } else { v as int }) as nat));
    let sign_len: u64 = if v < 0 {
        1
    } else {
        0
    };
    let len = sign_len as u128 + body.len() as u128;
    let fill: u64 = if width as u128 > len {
        (width as u128 - len) as u64
    } else {
        0
    };
    assert(repeat(' ', fill as int) =~= repeat(' ', width - len));
    assert(repeat('0', fill as int) =~= repeat('0', width - len));
    if padding == Padding::Space {
        push_repeat(out, ' ', fill);
    }
    if v < 0 {
        out.push('-');
    }
    if padding == Padding::Zero {
        push_repeat(out, '0', fill);
    }
    out.append(&mut body);
    let ghost sign: Seq<char> = if v < 0 {
        seq!['-']
    } else {
        seq![]
    };
    if padding == Padding::Space {
        assert(out@ =~= old(out)@ + (repeat(' ', width - len) + sign + body_seq));
    } else if padding == Padding::Zero {
        assert(out@ =~= old(out)@ + (sign + repeat('0', width - len) + body_seq));
    } else {
        assert(out@ =~= old(out)@ + (sign + body_seq));
    }
}

/// Appends a year as `%Y` writes it.
fn push_year(out: &mut Vec<char>, year: i32, padding: Padding)
    ensures
        final(out)@ == old(out)@ + render_year(year as int, padding),
{
    let ghost start = out@;
    if year >= 10_000 {
        out.push('+');
    }
    let effective_padding = if padding == Padding::Default {
        Padding::Zero
    } else {
        padding
    };
    push_int(out, year as i64, 4, effective_padding);
    let ghost sign: Seq<char> = if year >= 10_000 {
        seq!['+']
    } else {
        seq![]
    };
    assert(out@ =~= start + (sign + render_int(year as int, 4, effective(padding, Padding::Zero))));
}

/// The name of a weekday, full or abbreviated.
pub(crate) fn weekday_name_str(w: Weekday, short: bool) -> (r: &'static str)
    ensures
        r@ == weekday_name(w, short),
{
    if short {
        match w {
            Weekday::Monday => "Mon",
            Weekday::Tuesday => "Tue",
            Weekday::Wednesday => "Wed",
            Weekday::Thursday => "Thu",
            Weekday::Friday => "Fri",
            Weekday::Saturday => "Sat",
            Weekday::Sunday => "Sun",
        }
    } else {
        match w {
            Weekday::Monday => "Monday",
            Weekday::Tuesday => "Tuesday",
            Weekday::Wednesday => "Wednesday",
            Weekday::Thursday => "Thursday",
            Weekday::Friday => "Friday",
            Weekday::Saturday => "Saturday",
            Weekday::Sunday => "Sunday",
        }
    }
}

/// The name of month `m` (1-12), full or abbreviated.
pub(crate) fn month_name_str(m: u8, short: bool) -> (r: &'static str)
    ensures
        r@ == month_name(m as int, short),
{
    if short {
        if m == 1 {
            "Jan"
        } else if m == 2 {
            "Feb"
        } else if m == 3 {
            "Mar"
        } else if m == 4 {
            "Apr"
        } else if m == 5 {
            "May"
        } else if m == 6 {
            "Jun"
        } else if m == 7 {
            "Jul"
        } else if m == 8 {
            "Aug"
        } else if m == 9 {
            "Sep"
        } else if m == 10 {
            "Oct"
        } else if m == 11 {
            "Nov"
        } else {
            "Dec"
        }
    } else {
        if m == 1 {
            "January"
        } else if m == 2 {
            "February"
        } else if m == 3 {
            "March"
        } else if m == 4 {
            "April"
        } else if m == 5 {
            "May"
        } else if m == 6 {
            "June"
        } else if m == 7 {
            "July"
        } else if m == 8 {
            "August"
        } else if m == 9 {
            "September"
        } else if m == 10 {
            "October"
        } else if m == 11 {
            "November"
        } else {
            "December"
        }
    }
}

/// Appends `am` or `pm` (upper case when `upper`) for hour `hour`.
fn push_am_pm(out: &mut Vec<char>, hour: u8, upper: bool)
    ensures
        final(out)@ == old(out)@ + (if upper {
            if hour < 12 {
                "AM"@
            } else {
                "PM"@
            }
        } else {
            if hour < 12 {
                "am"@
            } else {
                "pm"@
            }
        }),
{
    if upper {
        if hour < 12 {
            push_str(out, "AM")
        } else {
            push_str(out, "PM")
        }
    } else {
        if hour < 12 {
            push_str(out, "am")
        } else {
            push_str(out, "pm")
        }
    }
}

/// The padding in effect: the one asked for, or the specifier's own.
fn effective_exec(padding: Padding, default: Padding) -> (r: Padding)
    ensures
        r == effective(padding, default),
{
    if padding == Padding::Default {
        default
    } else {
        padding
    }
}

/// Appends what `%c` writes for a date-time.
fn push_date_time(out: &mut Vec<char>, padding: Padding, dt: PrimitiveDateTime)
    ensures
        final(out)@ == old(out)@ + render_component(Specifier::DateTime, padding, dt),
{
    let ghost start = out@;
    let date = dt.date();
    let time = dt.time();
    let year = date.year();
    let hour = time.hour();
    push_str(out, weekday_name_str(date.weekday(), true));
    out.push(' ');
    push_str(out, month_name_str(date.month(), true));
    out.push(' ');
    push_int(out, date.day() as i64, 2, Padding::Unpadded);
    out.push(' ');
    push_int(out, hour as i64, 2, Padding::Unpadded);
    out.push(':');
    push_int(out, time.minute() as i64, 2, Padding::Zero);
    out.push(':');
    push_int(out, time.second() as i64, 2, Padding::Zero);
    out.push(' ');
    push_year(out, year, Padding::Unpadded);
    assert(out@ =~= start + render_component(Specifier::DateTime, padding, dt));
}

/// Appends what `%D` writes for a date-time.
fn push_month_day_year(out: &mut Vec<char>, padding: Padding, dt: PrimitiveDateTime)
    ensures
        final(out)@ == old(out)@ + render_component(Specifier::MonthDayYear, padding, dt),
{
    let ghost start = out@;
    let date = dt.date();
    let year = date.year();
    push_int(out, date.month() as i64, 2, Padding::Unpadded);
    out.push('/');
    push_int(out, date.day() as i64, 2, Padding::Zero);
    out.push('/');
    push_int(out, rem_trunc_100(year) as i64, 2, Padding::Zero);
    assert(out@ =~= start + render_component(Specifier::MonthDayYear, padding, dt));
}

/// Appends what `%F` writes for a date-time.
fn push_iso_date(out: &mut Vec<char>, padding: Padding, dt: PrimitiveDateTime)
    ensures
        final(out)@ == old(out)@ + render_component(Specifier::IsoDate, padding, dt),
{
    let ghost start = out@;
    let date = dt.date();
    let year = date.year();
    push_year(out, year, Padding::Unpadded);
    out.push('-');
    push_int(out, date.month() as i64, 2, Padding::Zero);
    out.push('-');
    push_int(out, date.day() as i64, 2, Padding::Zero);
    assert(out@ =~= start + render_component(Specifier::IsoDate, padding, dt));
}

/// Appends what `%r` writes for a date-time.
fn push_time12(out: &mut Vec<char>, padding: Padding, dt: PrimitiveDateTime)
    ensures
        final(out)@ == old(out)@ + render_component(Specifier::Time12, padding, dt),
{
    let ghost start = out@;
    let time = dt.time();
    let hour = time.hour();
    push_int(out, ((hour + 11) % 12 + 1) as i64, 2, Padding::Unpadded);
    out.push(':');
    push_int(out, time.minute() as i64, 2, Padding::Zero);
    out.push(':');
    push_int(out, time.second() as i64, 2, Padding::Zero);
    out.push(' ');
    push_am_pm(out, hour, false);
    assert(out@ =~= start + render_component(Specifier::Time12, padding, dt));
}

/// Appends what `%R` writes for a date-time.
fn push_hour_minute(out: &mut Vec<char>, padding: Padding, dt: PrimitiveDateTime)
    ensures
        final(out)@ == old(out)@ + render_component(Specifier::HourMinute, padding, dt),
{
    let ghost start = out@;
    let time = dt.time();
    let hour = time.hour();
    push_int(out, hour as i64, 2, Padding::Unpadded);
    out.push(':');
    push_int(out, time.minute() as i64, 2, Padding::Zero);
    assert(out@ =~= start + render_component(Specifier::HourMinute, padding, dt));
}

/// Appends what `%T` writes for a date-time.
fn push_time24(out: &mut Vec<char>, padding: Padding, dt: PrimitiveDateTime)
    ensures
        final(out)@ == old(out)@ + render_component(Specifier::Time24, padding, dt),
{
    let ghost start = out@;
    let time = dt.time();
    let hour = time.hour();
    push_int(out, hour as i64, 2, Padding::Unpadded);
    out.push(':');
    push_int(out, time.minute() as i64, 2, Padding::Zero);
    out.push(':');
    push_int(out, time.second() as i64, 2, Padding::Zero);
    assert(out@ =~= start + render_component(Specifier::Time24, padding, dt));
}

/// Appends what a specifier writes for a date-time.
fn push_component(out: &mut Vec<char>, spec: Specifier, padding: Padding, dt: PrimitiveDateTime)
    ensures
        final(out)@ == old(out)@ + render_component(spec, padding, dt),
{
    let ghost start = out@;
    let date = dt.date();
    let time = dt.time();
    let year = date.year();
    let hour = time.hour();
    match spec {
        Specifier::WeekdayShort => push_str(out, weekday_name_str(date.weekday(), true)),
        Specifier::WeekdayLong => push_str(out, weekday_name_str(date.weekday(), false)),
        Specifier::MonthShort => push_str(out, month_name_str(date.month(), true)),
        Specifier::MonthLong => push_str(out, month_name_str(date.month(), false)),
        Specifier::DateTime => push_date_time(out, padding, dt),
        Specifier::Century => push_int(
            out,
            crate::arith::div_trunc(year as i128, 100) as i64,
            2,
            effective_exec(padding, Padding::Zero),
        ),
        Specifier::Day => push_int(out, date.day() as i64, 2, effective_exec(padding, Padding::Zero)),
        Specifier::MonthDayYear => push_month_day_year(out, padding, dt),
        Specifier::IsoDate => push_iso_date(out, padding, dt),
        Specifier::IsoYearShort => push_int(
            out,
            rem_trunc_100(date.iso_year_week().0) as i64,
            2,
            effective_exec(padding, Padding::Zero),
        ),
        Specifier::IsoYear => push_year(out, date.iso_year_week().0, padding),
        Specifier::Hour24 => push_int(out, hour as i64, 2, effective_exec(padding, Padding::Zero)),
        Specifier::Hour12 => push_int(
            out,
            ((hour + 11) % 12 + 1) as i64,
            2,
            effective_exec(padding, Padding::Zero),
        ),
        Specifier::Ordinal => push_int(
            out,
            date.ordinal() as i64,
            3,
            effective_exec(padding, Padding::Zero),
        ),
        Specifier::Month => push_int(out, date.month() as i64, 2, effective_exec(padding, Padding::Zero)),
        Specifier::Minute => push_int(
            out,
            time.minute() as i64,
            2,
            effective_exec(padding, Padding::Zero),
        ),
        Specifier::Nanosecond => push_int(out, time.nanosecond() as i64, 9, Padding::Zero),
        Specifier::AmPmLower => push_am_pm(out, hour, false),
        Specifier::AmPmUpper => push_am_pm(out, hour, true),
        Specifier::Time12 => push_time12(out, padding, dt),
        Specifier::HourMinute => push_hour_minute(out, padding, dt),
        Specifier::Second => push_int(
            out,
            time.second() as i64,
            2,
            effective_exec(padding, Padding::Zero),
        ),
        Specifier::Time24 => push_time24(out, padding, dt),
        Specifier::IsoWeekdayNumber => push_int(
            out,
            date.weekday().number_from_monday() as i64,
            1,
            Padding::Unpadded,
        ),
        Specifier::SundayWeek => push_int(
            out,
            date.sunday_based_week() as i64,
            2,
            effective_exec(padding, Padding::Zero),
        ),
        Specifier::IsoWeek => push_int(out, date.week() as i64, 2, effective_exec(padding, Padding::Zero)),
        Specifier::WeekdayFromSunday => push_int(
            out,
            date.weekday().number_days_from_sunday() as i64,
            1,
            Padding::Unpadded,
        ),
        Specifier::MondayWeek => push_int(
            out,
            date.monday_based_week() as i64,
            2,
            effective_exec(padding, Padding::Zero),
        ),
        Specifier::YearShort => push_int(
            out,
            rem_trunc_100(year) as i64,
            2,
            effective_exec(padding, Padding::Zero),
        ),
        Specifier::Year => push_year(out, year, padding),
        Specifier::Offset => {
            assert(out@ =~= start + render_component(spec, padding, dt));
        },
    }
}

/// The remainder of `v` by 100, with the sign of `v`, as Rust's `%` gives it.
fn rem_trunc_100(v: i32) -> (r: i32)
    ensures
        r == trunc_rem(v as int, 100),
        -100 < r < 100,
{
    proof {
        crate::arith::lemma_trunc_div(v as int, 100);
    }
    let q = crate::arith::div_trunc(v as i128, 100);
    (v as i128 - q * 100) as i32
}

/// Appends what the items write for a date-time.
pub fn push_items(out: &mut Vec<char>, items: &Vec<FormatItem>, dt: PrimitiveDateTime)
    ensures
        final(out)@ == old(out)@ + render(items@, dt),
{
    let n = items.len();
    let mut i: usize = 0;
    while i < n
        invariant
            n == items@.len(),
            i <= n,
            out@ == old(out)@ + render(items@.subrange(0, i as int), dt),
        decreases n - i,
    {
        let ghost before = out@;
        match items[i] {
            FormatItem::Literal(c) => out.push(c),
            FormatItem::Component(spec, padding) => push_component(out, spec, padding, dt),
        }
        assert(items@.subrange(0, i + 1).drop_last() =~= items@.subrange(0, i as int));
        assert(out@ =~= old(out)@ + render(items@.subrange(0, i + 1), dt));
        i = i + 1;
    }
    assert(items@.subrange(0, n as int) =~= items@);
}

impl PrimitiveDateTime {
    /// The date-time written out as the format description `format` says.
    pub fn format(self, format: &str) -> (r: String)
        requires
            parse_format_spec(format@) is Some,
            !needs_offset(parse_format_spec(format@).unwrap()),
        ensures
            r@ == render(parse_format_spec(format@).unwrap(), self),
    {
        match parse_format(format) {
            Some(items) => {
                let mut out: Vec<char> = Vec::new();
                push_items(&mut out, &items, self);
                assert(out@ =~= Seq::<char>::empty() + render(items@, self));
                crate::text::string_from_chars(&out)
            },
            None => {
                proof {
                    assert(false);
                }
                String::new()
            },
        }
    }
}

} // verus!

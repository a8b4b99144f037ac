//! Reading date-times back from text according to a format description.
use vstd::prelude::*;

use crate::date::weekday_after_monday;
use crate::format::{
    month_name, month_name_str, parse_format, parse_format_spec, weekday_name, weekday_name_str,
    FormatItem, Padding, Specifier,
};
use crate::text::chars_of;
use crate::weekday::Weekday;
use vstd::string::StrSliceExecFns;

verus! {

/// Why text could not be read as a date-time.
#[derive(Clone, Copy, Debug, PartialEq, Eq, Hash, Structural)]
pub enum ParseError {
    /// The nanoseconds were not nine digits.
    InvalidNanosecond,
    /// The second was not a number of the expected width.
    InvalidSecond,
    /// The minute was not a number of the expected width.
    InvalidMinute,
    /// The hour was not a number of the expected width.
    InvalidHour,
    /// Neither `am` nor `pm` (in the expected case) was found.
    InvalidAmPm,
    /// The month was neither a number of the expected width nor a month name.
    InvalidMonth,
    /// The year was not a number of the expected width.
    InvalidYear,
    /// A week number was not a number of the expected width.
    InvalidWeek,
    /// The day of the week was neither a number in range nor a weekday name.
    InvalidDayOfWeek,
    /// The day of the month was not a number of the expected width.
    InvalidDayOfMonth,
    /// The day of the year was not a number of the expected width.
    InvalidDayOfYear,
    /// A literal character of the format description did not match.
    UnexpectedCharacter { expected: char, actual: char },
    /// The text ended while the format description asked for more.
    UnexpectedEndOfString,
    /// Text was left over after the whole format description was matched.
    UnexpectedTrailingCharacters,
    /// The format description asks for a specifier that cannot be read back
    /// (`%C`, `%D`, `%g`, `%y` or `%z`).
    UnsupportedSpecifier,
    /// The components read do not determine a date and a time.
    InsufficientInformation,
    /// The format description itself is malformed.
    InvalidFormatDescription,
    /// A component read lay out of range.
    ComponentOutOfRange(crate::error::ComponentRangeError),
}

/// Whether `c` is an ASCII decimal digit.
pub open spec fn is_digit(c: char) -> bool {
    '0' <= c <= '9'
}

/// The value of the ASCII decimal digit `c`.
pub open spec fn digit_value(c: char) -> int {
    c as int - '0' as int
}

/// The number of decimal digits at the start of `s`, at most `max`.
pub open spec fn leading_digits(s: Seq<char>, max: nat) -> nat
    decreases max,
{
    if max == 0 || s.len() == 0 || !is_digit(s[0]) {
        0
    } else {
        1 + leading_digits(s.drop_first(), (max - 1) as nat)
    }
}

/// The number that the first `n` characters of `s`, all digits, spell.
pub open spec fn digits_value(s: Seq<char>, n: nat) -> int
    decreases n,
{
    if n == 0 {
        0
    } else {
        digits_value(s, (n - 1) as nat) * 10 + digit_value(s[n - 1])
    }
}

/// The number of spaces at the start of `s`.
pub open spec fn leading_spaces(s: Seq<char>) -> nat
    decreases s.len(),
{
    if s.len() == 0 || s[0] != ' ' {
        0
    } else {
        1 + leading_spaces(s.drop_first())
    }
}

/// Reads an unsigned number of `least` to `most` digits at the start of `s`,
/// after any spaces when `skip_spaces`. Gives the number and the characters read.
pub open spec fn read_number(s: Seq<char>, least: nat, most: nat, skip_spaces: bool) -> Option<
    (int, nat),
> {
    let spaces: nat = if skip_spaces {
        leading_spaces(s)
    } else {
        0
    };
    let rest = s.subrange(spaces as int, s.len() as int);
    let n = leading_digits(rest, most);
    if n < least {
        None
    } else {
        Some((digits_value(rest, n), spaces + n))
    }
}

/// The digits a number of width `width` may take with `padding`: exactly
/// `width` with zero padding (the default), else one to `width` after any
/// spaces for space padding.
pub open spec fn digit_bounds(width: nat, padding: Padding) -> (nat, nat, bool) {
    if padding == Padding::Zero || padding == Padding::Default {
        (width, width, false)
    } else {
        (1, width, padding == Padding::Space)
    }
}

/// `leading_digits` counts the digits up to the first non-digit, the end,
/// or the limit.
pub(crate) proof fn lemma_leading_digits(s: Seq<char>, max: nat, k: nat)
    requires
        k <= max,
        k <= s.len(),
        forall|j: int| 0 <= j < k ==> is_digit(#[trigger] s[j]),
        k == max || k == s.len() || !is_digit(s[k as int]),
    ensures
        leading_digits(s, max) == k,
    decreases k,
{
    if k > 0 {
        assert forall|j: int| 0 <= j < k - 1 implies is_digit(#[trigger] s.drop_first()[j]) by {
            assert(s.drop_first()[j] == s[j + 1]);
        }
        lemma_leading_digits(s.drop_first(), (max - 1) as nat, (k - 1) as nat);
    }
}

/// `leading_spaces` counts the spaces up to the first other character or the end.
proof fn lemma_leading_spaces(s: Seq<char>, k: nat)
    requires
        k <= s.len(),
        forall|j: int| 0 <= j < k ==> #[trigger] s[j] == ' ',
        k == s.len() || s[k as int] != ' ',
    ensures
        leading_spaces(s) == k,
    decreases k,
{
    if k > 0 {
        assert forall|j: int| 0 <= j < k - 1 implies #[trigger] s.drop_first()[j] == ' ' by {
            assert(s.drop_first()[j] == s[j + 1]);
        }
        lemma_leading_spaces(s.drop_first(), (k - 1) as nat);
    }
}

/// The digits' value only depends on the digits read.
pub(crate) proof fn lemma_digits_value_prefix(s: Seq<char>, t: Seq<char>, n: nat)
    requires
        n <= s.len(),
        n <= t.len(),
        forall|j: int| 0 <= j < n ==> s[j] == t[j],
    ensures
        digits_value(s, n) == digits_value(t, n),
    decreases n,
{
    if n > 0 {
        lemma_digits_value_prefix(s, t, (n - 1) as nat);
    }
}

/// Ten to the power `n`.
pub open spec fn pow10(n: nat) -> int
    decreases n,
{
    if n == 0 {
        1
    } else {
        10 * pow10((n - 1) as nat)
    }
}

/// Reads a number at `pos` in `s` as `read_number` does on the text from `pos`.
fn read_number_exec(s: &Vec<char>, pos: usize, least: usize, width: usize, skip_spaces: bool) -> (r: Option<(u32, usize)>)
    requires
        pos <= s@.len(),
        1 <= width <= 9,
    ensures
        ({
            let spec = read_number(
                s@.subrange(pos as int, s@.len() as int),
                least as nat,
                width as nat,
                skip_spaces,
            );
            match r {
                Some((v, consumed)) => spec == Some((v as int, consumed as nat)) && pos + consumed
                    <= s@.len() && v < pow10(width as nat),
                None => spec is None,
            }
        }),
{
    let ghost text = s@.subrange(pos as int, s@.len() as int);
    let n = s.len();
    let mut at = pos;
    if skip_spaces {
        while at < n && s[at] == ' '
            invariant
                pos <= at <= n,
                n == s@.len(),
                forall|j: int| pos <= j < at ==> s@[j] == ' ',
            decreases n - at,
        {
            at = at + 1;
        }
        proof {
            assert forall|j: int| 0 <= j < at - pos implies #[trigger] text[j] == ' ' by {
                assert(text[j] == s@[pos + j]);
            }
            lemma_leading_spaces(text, (at - pos) as nat);
        }
    }
    let spaces = at - pos;
    let ghost rest = text.subrange(spaces as int, text.len() as int);
    assert(rest =~= s@.subrange(at as int, n as int));
    let mut k: usize = 0;
    let mut value: u32 = 0;
    while k < width && at + k < n && '0' <= s[at + k] && s[at + k] <= '9'
        invariant
            k <= width <= 9,
            at + k <= n,
            n == s@.len(),
            rest == s@.subrange(at as int, n as int),
            forall|j: int| 0 <= j < k ==> is_digit(#[trigger] rest[j]),
            value == digits_value(rest, k as nat),
            value < pow10(k as nat),
        decreases width - k,
    {
        let c = s[at + k];
        assert(rest[k as int] == c);
        assert(pow10((k + 1) as nat) == 10 * pow10(k as nat));
        assert(pow10(k as nat) <= 100_000_000) by {
            lemma_pow10_monotone(k as nat, 8);
            reveal_with_fuel(pow10, 9);
        }
        value = value * 10 + (c as u32 - '0' as u32);
        k = k + 1;
    }
    proof {
        lemma_leading_digits(rest, width as nat, k as nat);
        lemma_pow10_monotone(k as nat, width as nat);
    }
    if k < least {
        None
    } else {
        Some((value, spaces + k))
    }
}

/// Powers of ten grow with the exponent.
proof fn lemma_pow10_monotone(a: nat, b: nat)
    requires
        a <= b,
    ensures
        1 <= pow10(a) <= pow10(b),
    decreases b,
{
    if a < b {
        lemma_pow10_monotone(a, (b - 1) as nat);
    } else if a > 0 {
        lemma_pow10_monotone((a - 1) as nat, (a - 1) as nat);
    }
}

/// The components read from text, each present when the text gave it.
#[derive(Clone, Copy, Debug, PartialEq, Eq, Hash, Structural)]
pub struct ParsedItems {
    pub year: Option<i32>,
    pub month: Option<u8>,
    pub day: Option<u8>,
    pub ordinal: Option<u16>,
    pub iso_year: Option<i32>,
    pub iso_week: Option<u8>,
    pub sunday_week: Option<u8>,
    pub monday_week: Option<u8>,
    pub weekday: Option<Weekday>,
    pub hour_24: Option<u8>,
    pub hour_12: Option<u8>,
    pub pm: Option<bool>,
    pub minute: Option<u8>,
    pub second: Option<u8>,
    pub nanosecond: Option<u32>,
}

impl ParsedItems {
    /// No component read yet.
    pub open spec fn empty_spec() -> ParsedItems {
        ParsedItems {
            year: None,
            month: None,
            day: None,
            ordinal: None,
            iso_year: None,
            iso_week: None,
            sunday_week: None,
            monday_week: None,
            weekday: None,
            hour_24: None,
            hour_12: None,
            pm: None,
            minute: None,
            second: None,
            nanosecond: None,
        }
    }

    /// No component read yet.
    pub fn new() -> (r: ParsedItems)
        ensures
            r == ParsedItems::empty_spec(),
    {
        ParsedItems {
            year: None,
            month: None,
            day: None,
            ordinal: None,
            iso_year: None,
            iso_week: None,
            sunday_week: None,
            monday_week: None,
            weekday: None,
            hour_24: None,
            hour_12: None,
            pm: None,
            minute: None,
            second: None,
            nanosecond: None,
        }
    }
}

/// A component read as an unsigned number.
#[derive(Clone, Copy, Debug, PartialEq, Eq, Hash, Structural)]
pub enum NumericField {
    Day,
    Month,
    Ordinal,
    IsoWeek,
    SundayWeek,
    MondayWeek,
    Hour24,
    Hour12,
    Minute,
    Second,
    Nanosecond,
}

/// For a specifier read as an unsigned number: the component, its width,
/// and the error when the number is missing.
pub open spec fn numeric_field(spec: Specifier) -> Option<(NumericField, nat, ParseError)> {
    match spec {
        Specifier::Day => Some((NumericField::Day, 2nat, ParseError::InvalidDayOfMonth)),
        Specifier::Month => Some((NumericField::Month, 2nat, ParseError::InvalidMonth)),
        Specifier::Ordinal => Some((NumericField::Ordinal, 3nat, ParseError::InvalidDayOfYear)),
        Specifier::IsoWeek => Some((NumericField::IsoWeek, 2nat, ParseError::InvalidWeek)),
        Specifier::SundayWeek => Some((NumericField::SundayWeek, 2nat, ParseError::InvalidWeek)),
        Specifier::MondayWeek => Some((NumericField::MondayWeek, 2nat, ParseError::InvalidWeek)),
        Specifier::Hour24 => Some((NumericField::Hour24, 2nat, ParseError::InvalidHour)),
        Specifier::Hour12 => Some((NumericField::Hour12, 2nat, ParseError::InvalidHour)),
        Specifier::Minute => Some((NumericField::Minute, 2nat, ParseError::InvalidMinute)),
        Specifier::Second => Some((NumericField::Second, 2nat, ParseError::InvalidSecond)),
        Specifier::Nanosecond => Some((NumericField::Nanosecond, 9nat, ParseError::InvalidNanosecond)),
        _ => None,
    }
}

/// The components with `field` set to `v`.
pub open spec fn with_field(p: ParsedItems, field: NumericField, v: int) -> ParsedItems {
    match field {
        NumericField::Day => ParsedItems { day: Some(v as u8), ..p },
        NumericField::Month => ParsedItems { month: Some(v as u8), ..p },
        NumericField::Ordinal => ParsedItems { ordinal: Some(v as u16), ..p },
        NumericField::IsoWeek => ParsedItems { iso_week: Some(v as u8), ..p },
        NumericField::SundayWeek => ParsedItems { sunday_week: Some(v as u8), ..p },
        NumericField::MondayWeek => ParsedItems { monday_week: Some(v as u8), ..p },
        NumericField::Hour24 => ParsedItems { hour_24: Some(v as u8), ..p },
        NumericField::Hour12 => ParsedItems { hour_12: Some(v as u8), ..p },
        NumericField::Minute => ParsedItems { minute: Some(v as u8), ..p },
        NumericField::Second => ParsedItems { second: Some(v as u8), ..p },
        NumericField::Nanosecond => ParsedItems { nanosecond: Some(v as u32), ..p },
    }
}

/// Whether `s` starts with `prefix`.
pub open spec fn starts_with(s: Seq<char>, prefix: Seq<char>) -> bool {
    prefix.len() <= s.len() && s.subrange(0, prefix.len() as int) == prefix
}

/// Reads a year: an optional `+` or `-`, then four to six digits with zero
/// (or default) padding, one to six digits otherwise.
pub open spec fn read_year(s: Seq<char>, padding: Padding) -> Option<(int, nat)> {
    let signed = s.len() > 0 && (s[0] == '+' || s[0] == '-');
    let negative = s.len() > 0 && s[0] == '-';
    let at: nat = if signed {
        1
    } else {
        0
    };
    let least: nat = if padding == Padding::Zero || padding == Padding::Default {
        4
    } else {
        1
    };
    match read_number(s.subrange(at as int, s.len() as int), least, 6, false) {
        Some((v, n)) => Some((
            if negative {
                -v
            } else {
                v
            },
            at + n,
        )),
        None => None,
    }
}

/// Reads a weekday name, full or abbreviated, at the start of `s`, trying
/// the weekdays from the one `from` days after Monday on.
pub open spec fn read_weekday_name(s: Seq<char>, short: bool, from: int) -> Option<(Weekday, nat)>
    decreases 7 - from,
{
    if from < 0 || from >= 7 {
        None
    } else if starts_with(s, weekday_name(Weekday::after_monday(from), short)) {
        Some((Weekday::after_monday(from), weekday_name(Weekday::after_monday(from), short).len()))
    } else {
        read_weekday_name(s, short, from + 1)
    }
}

/// Reads a month name, full or abbreviated, at the start of `s`, searching
/// from month `from` (1-12) on.
pub open spec fn read_month_name(s: Seq<char>, short: bool, from: int) -> Option<(int, nat)>
    decreases 13 - from,
{
    if from < 1 || from > 12 {
        None
    } else if starts_with(s, month_name(from, short)) {
        Some((from, month_name(from, short).len()))
    } else {
        read_month_name(s, short, from + 1)
    }
}

/// Reads a literal character at the start of `s`.
pub open spec fn read_literal(s: Seq<char>, c: char) -> Result<nat, ParseError> {
    if s.len() == 0 {
        Err(ParseError::UnexpectedEndOfString)
    } else if s[0] == c {
        Ok(1)
    } else {
        Err(ParseError::UnexpectedCharacter { expected: c, actual: s[0] })
    }
}

/// Reads one item at the start of `s`, giving the updated components and the
/// characters read.
pub open spec fn read_item(item: FormatItem, s: Seq<char>, acc: ParsedItems) -> Result<
    (ParsedItems, nat),
    ParseError,
> {
    match item {
        FormatItem::Literal(c) => match read_literal(s, c) {
            Ok(n) => Ok((acc, n)),
            Err(e) => Err(e),
        },
        FormatItem::Component(spec, padding) => match numeric_field(spec) {
            Some((field, width, error)) => {
                let (least, most, spaces) = if spec == Specifier::Nanosecond {
                    digit_bounds(width, Padding::Zero)
                } else {
                    digit_bounds(width, padding)
                };
                match read_number(s, least, most, spaces) {
                    Some((v, n)) => Ok((with_field(acc, field, v), n)),
                    None => Err(error),
                }
            },
            None => match spec {
                Specifier::Year => match read_year(s, padding) {
                    Some((v, n)) => Ok((ParsedItems { year: Some(v as i32), ..acc }, n)),
                    None => Err(ParseError::InvalidYear),
                },
                Specifier::IsoYear => match read_year(s, padding) {
                    Some((v, n)) => Ok((ParsedItems { iso_year: Some(v as i32), ..acc }, n)),
                    None => Err(ParseError::InvalidYear),
                },
                Specifier::WeekdayShort | Specifier::WeekdayLong => match read_weekday_name(
                    s,
                    spec == Specifier::WeekdayShort,
                    0,
                ) {
                    Some((w, n)) => Ok((ParsedItems { weekday: Some(w), ..acc }, n)),
                    None => Err(ParseError::InvalidDayOfWeek),
                },
                Specifier::MonthShort | Specifier::MonthLong => match read_month_name(
                    s,
                    spec == Specifier::MonthShort,
                    1,
                ) {
                    Some((m, n)) => Ok((ParsedItems { month: Some(m as u8), ..acc }, n)),
                    None => Err(ParseError::InvalidMonth),
                },
                Specifier::IsoWeekdayNumber => match read_number(s, 1, 1, false) {
                    Some((v, n)) => if 1 <= v <= 7 {
                        Ok((ParsedItems { weekday: Some(Weekday::after_monday(v - 1)), ..acc }, n))
                    } else {
                        Err(ParseError::InvalidDayOfWeek)
                    },
                    None => Err(ParseError::InvalidDayOfWeek),
                },
                Specifier::WeekdayFromSunday => match read_number(s, 1, 1, false) {
                    Some((v, n)) => if 0 <= v <= 6 {
                        Ok((ParsedItems { weekday: Some(Weekday::after_monday(v + 6)), ..acc }, n))
                    } else {
                        Err(ParseError::InvalidDayOfWeek)
                    },
                    None => Err(ParseError::InvalidDayOfWeek),
                },
                Specifier::AmPmLower => if starts_with(s, "am"@) {
                    Ok((ParsedItems { pm: Some(false), ..acc }, 2))
                } else if starts_with(s, "pm"@) {
                    Ok((ParsedItems { pm: Some(true), ..acc }, 2))
                } else {
                    Err(ParseError::InvalidAmPm)
                },
                Specifier::AmPmUpper => if starts_with(s, "AM"@) {
                    Ok((ParsedItems { pm: Some(false), ..acc }, 2))
                } else if starts_with(s, "PM"@) {
                    Ok((ParsedItems { pm: Some(true), ..acc }, 2))
                } else {
                    Err(ParseError::InvalidAmPm)
                },
                _ => Err(ParseError::UnsupportedSpecifier),
            },
        },
    }
}

/// The items a specifier stands for when reading: composite specifiers are
/// spelled out, the others stand for themselves.
pub open spec fn expand_item(item: FormatItem) -> Seq<FormatItem> {
    match item {
        FormatItem::Component(Specifier::DateTime, _) => seq![
            FormatItem::Component(Specifier::WeekdayShort, Padding::Default),
            FormatItem::Literal(' '),
            FormatItem::Component(Specifier::MonthShort, Padding::Default),
            FormatItem::Literal(' '),
            FormatItem::Component(Specifier::Day, Padding::Unpadded),
            FormatItem::Literal(' '),
            FormatItem::Component(Specifier::Hour24, Padding::Unpadded),
            FormatItem::Literal(':'),
            FormatItem::Component(Specifier::Minute, Padding::Zero),
            FormatItem::Literal(':'),
            FormatItem::Component(Specifier::Second, Padding::Zero),
            FormatItem::Literal(' '),
            FormatItem::Component(Specifier::Year, Padding::Unpadded),
        ],
        FormatItem::Component(Specifier::MonthDayYear, _) => seq![
            FormatItem::Component(Specifier::Month, Padding::Unpadded),
            FormatItem::Literal('/'),
            FormatItem::Component(Specifier::Day, Padding::Zero),
            FormatItem::Literal('/'),
            FormatItem::Component(Specifier::YearShort, Padding::Zero),
        ],
        FormatItem::Component(Specifier::IsoDate, _) => seq![
            FormatItem::Component(Specifier::Year, Padding::Unpadded),
            FormatItem::Literal('-'),
            FormatItem::Component(Specifier::Month, Padding::Zero),
            FormatItem::Literal('-'),
            FormatItem::Component(Specifier::Day, Padding::Zero),
        ],
        FormatItem::Component(Specifier::Time12, _) => seq![
            FormatItem::Component(Specifier::Hour12, Padding::Unpadded),
            FormatItem::Literal(':'),
            FormatItem::Component(Specifier::Minute, Padding::Zero),
            FormatItem::Literal(':'),
            FormatItem::Component(Specifier::Second, Padding::Zero),
            FormatItem::Literal(' '),
            FormatItem::Component(Specifier::AmPmLower, Padding::Default),
        ],
        FormatItem::Component(Specifier::HourMinute, _) => seq![
            FormatItem::Component(Specifier::Hour24, Padding::Unpadded),
            FormatItem::Literal(':'),
            FormatItem::Component(Specifier::Minute, Padding::Zero),
        ],
        FormatItem::Component(Specifier::Time24, _) => seq![
            FormatItem::Component(Specifier::Hour24, Padding::Unpadded),
            FormatItem::Literal(':'),
            FormatItem::Component(Specifier::Minute, Padding::Zero),
            FormatItem::Literal(':'),
            FormatItem::Component(Specifier::Second, Padding::Zero),
        ],
        _ => seq![item],
    }
}

/// The items of a format description with composite specifiers spelled out.
pub open spec fn expand(items: Seq<FormatItem>) -> Seq<FormatItem>
    decreases items.len(),
{
    if items.len() == 0 {
        seq![]
    } else {
        expand(items.drop_last()) + expand_item(items.last())
    }
}

/// Reads the items one after another from the start of `s`, which must be
/// used up, starting from the components `acc`.
pub open spec fn read_items(items: Seq<FormatItem>, s: Seq<char>, acc: ParsedItems) -> Result<
    ParsedItems,
    ParseError,
>
    decreases items.len(),
{
    if items.len() == 0 {
        if s.len() == 0 {
            Ok(acc)
        } else {
            Err(ParseError::UnexpectedTrailingCharacters)
        }
    } else {
        match read_item(items[0], s, acc) {
            Ok((next, n)) => if n <= s.len() {
                read_items(items.drop_first(), s.subrange(n as int, s.len() as int), next)
            } else {
                Err(ParseError::UnexpectedEndOfString)
            },
            Err(e) => Err(e),
        }
    }
}


/// What reading `s` with the format description `format` gives: the
/// components read, or why the text or the description was refused.
pub open spec fn parse_spec(s: Seq<char>, format: Seq<char>) -> Result<ParsedItems, ParseError> {
    match parse_format_spec(format) {
        Some(items) => read_items(expand(items), s, ParsedItems::empty_spec()),
        None => Err(ParseError::InvalidFormatDescription),
    }
}

/// Whether the text of `s` from `pos` starts with `lit`.
fn starts_with_at(s: &Vec<char>, pos: usize, lit: &str) -> (r: bool)
    requires
        pos <= s@.len(),
    ensures
        r == starts_with(s@.subrange(pos as int, s@.len() as int), lit@),
{
    let ghost t = s@.subrange(pos as int, s@.len() as int);
    let m = lit.unicode_len();
    if m > s.len() - pos {
        return false;
    }
    let mut i: usize = 0;
    while i < m
        invariant
            m == lit@.len(),
            pos + m <= s.len(),
            t == s@.subrange(pos as int, s@.len() as int),
            i <= m,
            forall|j: int| 0 <= j < i ==> s@[pos + j] == lit@[j],
        decreases m - i,
    {
        if s[pos + i] != lit.get_char(i) {
            assert(t.subrange(0, m as int)[i as int] != lit@[i as int]);
            return false;
        }
        i = i + 1;
    }
    assert(t.subrange(0, m as int) =~= lit@);
    true
}

/// Reads a year at `pos` in `s` as `read_year` does on the text from `pos`.
fn read_year_exec(s: &Vec<char>, pos: usize, padding: Padding) -> (r: Option<(i32, usize)>)
    requires
        pos <= s@.len(),
    ensures
        match r {
            Some((v, n)) => read_year(s@.subrange(pos as int, s@.len() as int), padding) == Some(
                (v as int, n as nat),
            ) && pos + n <= s@.len(),
            None => read_year(s@.subrange(pos as int, s@.len() as int), padding) is None,
        },
{
    let ghost t = s@.subrange(pos as int, s@.len() as int);
    let signed = pos < s.len() && (s[pos] == '+' || s[pos] == '-');
    let negative = pos < s.len() && s[pos] == '-';
    let at = if signed {
        pos + 1
    } else {
        pos
    };
    let least: usize = match padding {
        Padding::Zero | Padding::Default => 4,
        _ => 1,
    };
    assert(t.subrange((at - pos) as int, t.len() as int) =~= s@.subrange(at as int, s@.len() as int));
    match read_number_exec(s, at, least, 6, false) {
        Some((v, n)) => {
            assert(pow10(6) == 1_000_000) by {
                reveal_with_fuel(pow10, 7);
            }
            let value: i32 = if negative {
                -(v as i32)
            } else {
                v as i32
            };
            Some((value, at - pos + n))
        },
        None => None,
    }
}

/// Reads a weekday name at `pos` in `s` as `read_weekday_name` does on the
/// text from `pos`.
fn read_weekday_name_exec(s: &Vec<char>, pos: usize, short: bool) -> (r: Option<(Weekday, usize)>)
    requires
        pos <= s@.len(),
    ensures
        match r {
            Some((w, n)) => read_weekday_name(s@.subrange(pos as int, s@.len() as int), short, 0)
                == Some((w, n as nat)) && pos + n <= s@.len(),
            None => read_weekday_name(s@.subrange(pos as int, s@.len() as int), short, 0) is None,
        },
{
    let ghost t = s@.subrange(pos as int, s@.len() as int);
    let mut k: u8 = 0;
    while k < 7
        invariant
            k <= 7,
            pos <= s@.len(),
            t == s@.subrange(pos as int, s@.len() as int),
            read_weekday_name(t, short, 0) == read_weekday_name(t, short, k as int),
        decreases 7 - k,
    {
        let w = weekday_after_monday(k);
        let name = weekday_name_str(w, short);
        if starts_with_at(s, pos, name) {
            return Some((w, name.unicode_len()));
        }
        k = k + 1;
    }
    None
}

/// Reads a month name at `pos` in `s` as `read_month_name` does on the text
/// from `pos`.
fn read_month_name_exec(s: &Vec<char>, pos: usize, short: bool) -> (r: Option<(u8, usize)>)
    requires
        pos <= s@.len(),
    ensures
        match r {
            Some((m, n)) => read_month_name(s@.subrange(pos as int, s@.len() as int), short, 1)
                == Some((m as int, n as nat)) && pos + n <= s@.len(),
            None => read_month_name(s@.subrange(pos as int, s@.len() as int), short, 1) is None,
        },
{
    let ghost t = s@.subrange(pos as int, s@.len() as int);
    let mut m: u8 = 1;
    while m <= 12
        invariant
            1 <= m <= 13,
            pos <= s@.len(),
            t == s@.subrange(pos as int, s@.len() as int),
            read_month_name(t, short, 1) == read_month_name(t, short, m as int),
        decreases 13 - m,
    {
        let name = month_name_str(m, short);
        if starts_with_at(s, pos, name) {
            return Some((m, name.unicode_len()));
        }
        m = m + 1;
    }
    None
}

/// `numeric_field`, computed.
fn numeric_field_exec(spec: Specifier) -> (r: Option<(NumericField, usize, ParseError)>)
    ensures
        match r {
            Some((f, w, e)) => numeric_field(spec) == Some((f, w as nat, e)),
            None => numeric_field(spec) is None,
        },
{
    match spec {
        Specifier::Day => Some((NumericField::Day, 2, ParseError::InvalidDayOfMonth)),
        Specifier::Month => Some((NumericField::Month, 2, ParseError::InvalidMonth)),
        Specifier::Ordinal => Some((NumericField::Ordinal, 3, ParseError::InvalidDayOfYear)),
        Specifier::IsoWeek => Some((NumericField::IsoWeek, 2, ParseError::InvalidWeek)),
        Specifier::SundayWeek => Some((NumericField::SundayWeek, 2, ParseError::InvalidWeek)),
        Specifier::MondayWeek => Some((NumericField::MondayWeek, 2, ParseError::InvalidWeek)),
        Specifier::Hour24 => Some((NumericField::Hour24, 2, ParseError::InvalidHour)),
        Specifier::Hour12 => Some((NumericField::Hour12, 2, ParseError::InvalidHour)),
        Specifier::Minute => Some((NumericField::Minute, 2, ParseError::InvalidMinute)),
        Specifier::Second => Some((NumericField::Second, 2, ParseError::InvalidSecond)),
        Specifier::Nanosecond => Some((NumericField::Nanosecond, 9, ParseError::InvalidNanosecond)),
        _ => None,
    }
}

/// `with_field`, computed.
fn with_field_exec(p: ParsedItems, field: NumericField, v: u32) -> (r: ParsedItems)
    ensures
        r == with_field(p, field, v as int),
{
    let mut r = p;
    match field {
        NumericField::Day => r.day = Some(v as u8),
        NumericField::Month => r.month = Some(v as u8),
        NumericField::Ordinal => r.ordinal = Some(v as u16),
        NumericField::IsoWeek => r.iso_week = Some(v as u8),
        NumericField::SundayWeek => r.sunday_week = Some(v as u8),
        NumericField::MondayWeek => r.monday_week = Some(v as u8),
        NumericField::Hour24 => r.hour_24 = Some(v as u8),
        NumericField::Hour12 => r.hour_12 = Some(v as u8),
        NumericField::Minute => r.minute = Some(v as u8),
        NumericField::Second => r.second = Some(v as u8),
        NumericField::Nanosecond => r.nanosecond = Some(v),
    }
    r
}

/// Reads `am`/`pm` (or `AM`/`PM` when `upper`) at `pos` in `s`.
fn read_am_pm_exec(s: &Vec<char>, pos: usize, upper: bool) -> (r: Option<bool>)
    requires
        pos <= s@.len(),
    ensures
        ({
            let t = s@.subrange(pos as int, s@.len() as int);
            let (am, pm) = if upper {
                ("AM"@, "PM"@)
            } else {
                ("am"@, "pm"@)
            };
            match r {
                Some(is_pm) => (if is_pm {
                    !starts_with(t, am) && starts_with(t, pm)
                } else {
                    starts_with(t, am)
                }) && pos + 2 <= s@.len(),
                None => !starts_with(t, am) && !starts_with(t, pm),
            }
        }),
{
    proof {
        reveal_strlit("am");
        reveal_strlit("pm");
        reveal_strlit("AM");
        reveal_strlit("PM");
    }
    let (am, pm) = if upper {
        ("AM", "PM")
    } else {
        ("am", "pm")
    };
    if starts_with_at(s, pos, am) {
        Some(false)
    } else if starts_with_at(s, pos, pm) {
        Some(true)
    } else {
        None
    }
}

/// Reads one item at `pos` in `s` as `read_item` does on the text from `pos`.
fn read_item_exec(item: FormatItem, s: &Vec<char>, pos: usize, acc: ParsedItems) -> (r: Result<
    (ParsedItems, usize),
    ParseError,
>)
    requires
        pos <= s@.len(),
    ensures
        match r {
            Ok((next, n)) => read_item(item, s@.subrange(pos as int, s@.len() as int), acc)
                == Ok::<(ParsedItems, nat), ParseError>((next, n as nat)) && pos + n <= s@.len(),
            Err(e) => read_item(item, s@.subrange(pos as int, s@.len() as int), acc) == Err::<
                (ParsedItems, nat),
                ParseError,
            >(e),
        },
{
    let ghost t = s@.subrange(pos as int, s@.len() as int);
    match item {
        FormatItem::Literal(c) => {
            if pos >= s.len() {
                Err(ParseError::UnexpectedEndOfString)
            } else if s[pos] == c {
                Ok((acc, 1))
            } else {
                Err(ParseError::UnexpectedCharacter { expected: c, actual: s[pos] })
            }
        },
        FormatItem::Component(spec, padding) => match numeric_field_exec(spec) {
            Some((field, width, error)) => {
                let use_padding = match spec {
                    Specifier::Nanosecond => Padding::Zero,
                    _ => padding,
                };
                let (least, spaces) = match use_padding {
                    Padding::Zero | Padding::Default => (width, false),
                    Padding::Space => (1, true),
                    Padding::Unpadded => (1, false),
                };
                match read_number_exec(s, pos, least, width, spaces) {
                    Some((v, n)) => Ok((with_field_exec(acc, field, v), n)),
                    None => Err(error),
                }
            },
            None => match spec {
                Specifier::Year | Specifier::IsoYear => match read_year_exec(s, pos, padding) {
                    Some((v, n)) => {
                        let mut next = acc;
                        match spec {
                            Specifier::Year => next.year = Some(v),
                            _ => next.iso_year = Some(v),
                        }
                        Ok((next, n))
                    },
                    None => Err(ParseError::InvalidYear),
                },
                Specifier::WeekdayShort | Specifier::WeekdayLong => {
                    let short = match spec {
                        Specifier::WeekdayShort => true,
                        _ => false,
                    };
                    match read_weekday_name_exec(s, pos, short) {
                        Some((w, n)) => {
                            let mut next = acc;
                            next.weekday = Some(w);
                            Ok((next, n))
                        },
                        None => Err(ParseError::InvalidDayOfWeek),
                    }
                },
                Specifier::MonthShort | Specifier::MonthLong => {
                    let short = match spec {
                        Specifier::MonthShort => true,
                        _ => false,
                    };
                    match read_month_name_exec(s, pos, short) {
                        Some((m, n)) => {
                            let mut next = acc;
                            next.month = Some(m);
                            Ok((next, n))
                        },
                        None => Err(ParseError::InvalidMonth),
                    }
                },
                Specifier::IsoWeekdayNumber | Specifier::WeekdayFromSunday => {
                    let from_sunday = match spec {
                        Specifier::WeekdayFromSunday => true,
                        _ => false,
                    };
                    match read_number_exec(s, pos, 1, 1, false) {
                        Some((v, n)) => {
                            if !from_sunday && 1 <= v && v <= 7 {
                                let mut next = acc;
                                next.weekday = Some(weekday_after_monday((v - 1) as u8));
                                Ok((next, n))
                            } else if from_sunday && v <= 6 {
                                let mut next = acc;
                                next.weekday = Some(weekday_after_monday(((v + 6) % 7) as u8));
                                Ok((next, n))
                            } else {
                                Err(ParseError::InvalidDayOfWeek)
                            }
                        },
                        None => Err(ParseError::InvalidDayOfWeek),
                    }
                },
                Specifier::AmPmLower | Specifier::AmPmUpper => {
                    let upper = match spec {
                        Specifier::AmPmUpper => true,
                        _ => false,
                    };
                    match read_am_pm_exec(s, pos, upper) {
                        Some(is_pm) => {
                            let mut next = acc;
                            next.pm = Some(is_pm);
                            Ok((next, 2))
                        },
                        None => Err(ParseError::InvalidAmPm),
                    }
                },
                _ => Err(ParseError::UnsupportedSpecifier),
            },
        },
    }
}

/// Appends the items that `item` stands for when reading.
fn expand_item_exec(out: &mut Vec<FormatItem>, item: FormatItem)
    ensures
        final(out)@ == old(out)@ + expand_item(item),
{
    let ghost start = out@;
    match item {
        FormatItem::Component(Specifier::DateTime, _) => {
            out.push(FormatItem::Component(Specifier::WeekdayShort, Padding::Default));
            out.push(FormatItem::Literal(' '));
            out.push(FormatItem::Component(Specifier::MonthShort, Padding::Default));
            out.push(FormatItem::Literal(' '));
            out.push(FormatItem::Component(Specifier::Day, Padding::Unpadded));
            out.push(FormatItem::Literal(' '));
            out.push(FormatItem::Component(Specifier::Hour24, Padding::Unpadded));
            out.push(FormatItem::Literal(':'));
            out.push(FormatItem::Component(Specifier::Minute, Padding::Zero));
            out.push(FormatItem::Literal(':'));
            out.push(FormatItem::Component(Specifier::Second, Padding::Zero));
            out.push(FormatItem::Literal(' '));
            out.push(FormatItem::Component(Specifier::Year, Padding::Unpadded));
        },
        FormatItem::Component(Specifier::MonthDayYear, _) => {
            out.push(FormatItem::Component(Specifier::Month, Padding::Unpadded));
            out.push(FormatItem::Literal('/'));
            out.push(FormatItem::Component(Specifier::Day, Padding::Zero));
            out.push(FormatItem::Literal('/'));
            out.push(FormatItem::Component(Specifier::YearShort, Padding::Zero));
        },
        FormatItem::Component(Specifier::IsoDate, _) => {
            out.push(FormatItem::Component(Specifier::Year, Padding::Unpadded));
            out.push(FormatItem::Literal('-'));
            out.push(FormatItem::Component(Specifier::Month, Padding::Zero));
            out.push(FormatItem::Literal('-'));
            out.push(FormatItem::Component(Specifier::Day, Padding::Zero));
        },
        FormatItem::Component(Specifier::Time12, _) => {
            out.push(FormatItem::Component(Specifier::Hour12, Padding::Unpadded));
            out.push(FormatItem::Literal(':'));
            out.push(FormatItem::Component(Specifier::Minute, Padding::Zero));
            out.push(FormatItem::Literal(':'));
            out.push(FormatItem::Component(Specifier::Second, Padding::Zero));
            out.push(FormatItem::Literal(' '));
            out.push(FormatItem::Component(Specifier::AmPmLower, Padding::Default));
        },
        FormatItem::Component(Specifier::HourMinute, _) => {
            out.push(FormatItem::Component(Specifier::Hour24, Padding::Unpadded));
            out.push(FormatItem::Literal(':'));
            out.push(FormatItem::Component(Specifier::Minute, Padding::Zero));
        },
        FormatItem::Component(Specifier::Time24, _) => {
            out.push(FormatItem::Component(Specifier::Hour24, Padding::Unpadded));
            out.push(FormatItem::Literal(':'));
            out.push(FormatItem::Component(Specifier::Minute, Padding::Zero));
            out.push(FormatItem::Literal(':'));
            out.push(FormatItem::Component(Specifier::Second, Padding::Zero));
        },
        _ => out.push(item),
    }
    assert(out@ =~= start + expand_item(item));
}

/// The items of a format description with composite specifiers spelled out.
fn expand_exec(items: &Vec<FormatItem>) -> (r: Vec<FormatItem>)
    ensures
        r@ == expand(items@),
{
    let mut out: Vec<FormatItem> = Vec::new();
    let mut i: usize = 0;
    while i < items.len()
        invariant
            i <= items@.len(),
            out@ == expand(items@.subrange(0, i as int)),
        decreases items@.len() - i,
    {
        assert(items@.subrange(0, i + 1).drop_last() =~= items@.subrange(0, i as int));
        expand_item_exec(&mut out, items[i]);
        i = i + 1;
    }
    assert(items@.subrange(0, items@.len() as int) =~= items@);
    out
}

/// Reads `s` with the format description `format`: the components that the
/// text gives, or why the text or the description was refused.
pub fn parse_items(s: &str, format: &str) -> (r: Result<ParsedItems, ParseError>)
    ensures
        r == parse_spec(s@, format@),
{
    let items = match parse_format(format) {
        Some(items) => items,
        None => {
            return Err(ParseError::InvalidFormatDescription);
        },
    };
    let expanded = expand_exec(&items);
    let chars = chars_of(s);
    let n = chars.len();
    let mut acc = ParsedItems::new();
    let mut i: usize = 0;
    let mut pos: usize = 0;
    assert(expanded@.subrange(0, expanded@.len() as int) =~= expanded@);
    assert(chars@.subrange(0, n as int) =~= chars@);
    while i < expanded.len()
        invariant
            n == chars@.len(),
            chars@ == s@,
            expanded@ == expand(items@),
            parse_format_spec(format@) == Some(items@),
            i <= expanded@.len(),
            pos <= n,
            parse_spec(s@, format@) == read_items(
                expanded@.subrange(i as int, expanded@.len() as int),
                chars@.subrange(pos as int, n as int),
                acc,
            ),
        decreases expanded@.len() - i,
    {
        let ghost rest = expanded@.subrange(i as int, expanded@.len() as int);
        let ghost text = chars@.subrange(pos as int, n as int);
        assert(rest[0] == expanded@[i as int]);
        match read_item_exec(expanded[i], &chars, pos, acc) {
            Ok((next, k)) => {
                assert(rest.drop_first() =~= expanded@.subrange(i + 1, expanded@.len() as int));
                assert(text.subrange(k as int, text.len() as int) =~= chars@.subrange(
                    pos + k,
                    n as int,
                ));
                acc = next;
                pos = pos + k;
                i = i + 1;
            },
            Err(e) => {
                return Err(e);
            },
        }
    }
    if pos < n {
        Err(ParseError::UnexpectedTrailingCharacters)
    } else {
        Ok(acc)
    }
}

/// The first three characters of a text that starts with `prefix`, at least
/// three long, are those of `prefix`.
proof fn lemma_starts_with_initials(s: Seq<char>, prefix: Seq<char>)
    requires
        starts_with(s, prefix),
        prefix.len() >= 3,
    ensures
        s[0] == prefix[0] && s[1] == prefix[1] && s[2] == prefix[2],
{
    assert(s.subrange(0, prefix.len() as int)[0] == s[0]);
    assert(s.subrange(0, prefix.len() as int)[1] == s[1]);
    assert(s.subrange(0, prefix.len() as int)[2] == s[2]);
}

/// Searching the month names from month `from` on, in text that starts with
/// the name of month `m`, finds month `m`.
proof fn lemma_read_month_name_from(m: int, short: bool, s: Seq<char>, from: int)
    requires
        1 <= from <= m <= 12,
        starts_with(s, month_name(m, short)),
    ensures
        read_month_name(s, short, from) == Some((m, month_name(m, short).len())),
    decreases m - from,
{
    if from < m {
        crate::format::lemma_month_names(m);
        crate::format::lemma_month_names(from);
        lemma_starts_with_initials(s, month_name(m, short));
        if starts_with(s, month_name(from, short)) {
            lemma_starts_with_initials(s, month_name(from, short));
            crate::format::lemma_initials_distinct(from, m, Weekday::Monday, Weekday::Monday);
        }
        lemma_read_month_name_from(m, short, s, from + 1);
    }
}

/// Searching the weekday names from the one `from` days after Monday on, in
/// text that starts with the name of weekday `w`, finds `w`.
proof fn lemma_read_weekday_name_from(w: Weekday, short: bool, s: Seq<char>, from: int)
    requires
        0 <= from <= w.days_from_monday(),
        starts_with(s, weekday_name(w, short)),
    ensures
        read_weekday_name(s, short, from) == Some((w, weekday_name(w, short).len())),
    decreases w.days_from_monday() - from,
{
    w.lemma_after_monday_inverse();
    if from < w.days_from_monday() {
        let v = Weekday::after_monday(from);
        v.lemma_after_monday_inverse();
        assert(v.days_from_monday() == from);
        crate::format::lemma_weekday_names(w);
        crate::format::lemma_weekday_names(v);
        lemma_starts_with_initials(s, weekday_name(w, short));
        if starts_with(s, weekday_name(v, short)) {
            lemma_starts_with_initials(s, weekday_name(v, short));
            crate::format::lemma_initials_distinct(1, 1, v, w);
        }
        lemma_read_weekday_name_from(w, short, s, from + 1);
    }
}

/// Names read back: text that starts with the name of month `m`, full for
/// `%B` or abbreviated for `%b`, is read as month `m`, and text that starts
/// with the name of weekday `w`, full for `%A` or abbreviated for `%a`, is
/// read as `w`; either way exactly the name is used up.
pub proof fn lemma_read_names(
    m: int,
    w: Weekday,
    short: bool,
    padding: Padding,
    rest: Seq<char>,
    acc: ParsedItems,
)
    requires
        1 <= m <= 12,
    ensures
        read_item(
            FormatItem::Component(
                if short {
                    Specifier::MonthShort
                } else {
                    Specifier::MonthLong
                },
                padding,
            ),
            month_name(m, short) + rest,
            acc,
        ) == Ok::<(ParsedItems, nat), ParseError>(
            (ParsedItems { month: Some(m as u8), ..acc }, month_name(m, short).len()),
        ),
        read_item(
            FormatItem::Component(
                if short {
                    Specifier::WeekdayShort
                } else {
                    Specifier::WeekdayLong
                },
                padding,
            ),
            weekday_name(w, short) + rest,
            acc,
        ) == Ok::<(ParsedItems, nat), ParseError>(
            (ParsedItems { weekday: Some(w), ..acc }, weekday_name(w, short).len()),
        ),
{
    let sm = month_name(m, short) + rest;
    assert(sm.subrange(0, month_name(m, short).len() as int) =~= month_name(m, short));
    lemma_read_month_name_from(m, short, sm, 1);
    let sw = weekday_name(w, short) + rest;
    assert(sw.subrange(0, weekday_name(w, short).len() as int) =~= weekday_name(w, short));
    w.lemma_after_monday_inverse();
    lemma_read_weekday_name_from(w, short, sw, 0);
}

} // verus!

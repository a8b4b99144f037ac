use time::{
    parse_format, parse_items, Component, ComponentRangeError, Date, FormatItem, Padding,
    ParseError, ParsedItems, PrimitiveDateTime, Specifier, Time,
};

fn dt(year: i32, month: u8, day: u8, hour: u8, minute: u8, second: u8) -> PrimitiveDateTime {
    Date::try_from_ymd(year, month, day)
        .unwrap()
        .with_time(Time::try_from_hms(hour, minute, second).unwrap())
}

fn out_of_range(component: Component) -> ParseError {
    ParseError::ComponentOutOfRange(ComponentRangeError { component })
}

#[test]
fn format_description_items() {
    assert_eq!(
        parse_format("%Y-%_m %% x").unwrap(),
        vec![
            FormatItem::Component(Specifier::Year, Padding::Default),
            FormatItem::Literal('-'),
            FormatItem::Component(Specifier::Month, Padding::Space),
            FormatItem::Literal(' '),
            FormatItem::Literal('%'),
            FormatItem::Literal(' '),
            FormatItem::Literal('x'),
        ]
    );
    assert_eq!(parse_format("%"), None);
    assert_eq!(parse_format("%-"), None);
    assert_eq!(parse_format("%Q"), None);
    assert_eq!(parse_format("").unwrap(), vec![]);
}

#[test]
fn format_specifiers() {
    let d = dt(2019, 1, 2, 13, 4, 5);
    assert_eq!(d.format("%a %A %b %B"), "Wed Wednesday Jan January");
    assert_eq!(d.format("%c"), "Wed Jan 2 13:04:05 2019");
    assert_eq!(d.format("%C %y %D"), "20 19 1/02/19");
    assert_eq!(d.format("%d %-d %_d %0d"), "02 2  2 02");
    assert_eq!(d.format("%H %I %p %P"), "13 01 pm PM");
    assert_eq!(d.format("%j %m %M %S"), "002 01 04 05");
    assert_eq!(d.format("%N"), "000000000");
    assert_eq!(d.format("%r | %R | %T"), "1:04:05 pm | 13:04 | 13:04:05");
    assert_eq!(d.format("%u %w %U %W %V %G %g"), "3 3 00 00 01 2019 19");
    assert_eq!(d.format("%F %Y %%"), "2019-01-02 2019 %");
}

#[test]
fn format_years() {
    assert_eq!(dt(5, 6, 7, 0, 0, 0).format("%Y|%-Y|%_Y"), "0005|5|   5");
    assert_eq!(dt(-5, 6, 7, 0, 0, 0).format("%Y"), "-005");
    assert_eq!(dt(12345, 6, 7, 0, 0, 0).format("%Y"), "+12345");
    assert_eq!(dt(12345, 6, 7, 0, 0, 0).format("%F"), "+12345-06-07");
}

#[test]
fn format_midnight_and_noon_on_12_hour_clock() {
    assert_eq!(dt(2019, 1, 1, 0, 0, 0).format("%I %p"), "12 am");
    assert_eq!(dt(2019, 1, 1, 12, 0, 0).format("%I %p"), "12 pm");
    assert_eq!(dt(2019, 1, 1, 23, 0, 0).format("%-I %P"), "11 PM");
}

#[test]
fn parse_month_and_weekday_names() {
    assert_eq!(
        PrimitiveDateTime::parse("Wed, 02 January 2019 13:04:05", "%a, %d %B %Y %T"),
        Ok(dt(2019, 1, 2, 13, 4, 5))
    );
    assert_eq!(
        PrimitiveDateTime::parse("2 Feb 2019 1:00:00 am", "%-d %b %Y %r"),
        Ok(dt(2019, 2, 2, 1, 0, 0))
    );
}

#[test]
fn parse_twelve_hour_clock() {
    assert_eq!(
        PrimitiveDateTime::parse("2019-01-02 12:30:00 am", "%F %r"),
        Ok(dt(2019, 1, 2, 0, 30, 0))
    );
    assert_eq!(
        PrimitiveDateTime::parse("2019-01-02 12:30 PM", "%F %I:%M %P"),
        Ok(dt(2019, 1, 2, 12, 30, 0))
    );
    assert_eq!(
        PrimitiveDateTime::parse("2019-01-02 13:30 PM", "%F %I:%M %P"),
        Err(out_of_range(Component::Hour))
    );
}

#[test]
fn parse_nanoseconds_and_padding() {
    assert_eq!(
        PrimitiveDateTime::parse("2019-01-02 03:04:05.000000006", "%F %T.%N"),
        Ok(Date::try_from_ymd(2019, 1, 2)
            .unwrap()
            .with_time(Time::try_from_hms_nano(3, 4, 5, 6).unwrap()))
    );
    assert_eq!(
        PrimitiveDateTime::parse("2019- 1- 2  3", "%Y-%_m-%_d %_H"),
        Ok(dt(2019, 1, 2, 3, 0, 0))
    );
    assert_eq!(
        PrimitiveDateTime::parse("2019-01-02 03:04:05.5", "%F %T.%N"),
        Err(ParseError::InvalidNanosecond)
    );
}

#[test]
fn parse_week_dates() {
    // 2019-01-02 is a Wednesday in Sunday-based week 0 and Monday-based week 0.
    assert_eq!(
        PrimitiveDateTime::parse("2019 00 3 00", "%Y %U %w %H"),
        Ok(dt(2019, 1, 2, 0, 0, 0))
    );
    assert_eq!(
        PrimitiveDateTime::parse("2019 00 3 00", "%Y %W %u %H"),
        Ok(dt(2019, 1, 2, 0, 0, 0))
    );
    // 2020-12-31 is a Thursday in Sunday-based week 52 and Monday-based week 52.
    assert_eq!(
        PrimitiveDateTime::parse("2020 52 Thursday 00", "%Y %U %A %H"),
        Ok(dt(2020, 12, 31, 0, 0, 0))
    );
    assert_eq!(
        PrimitiveDateTime::parse("2020 52 Thu 00", "%Y %W %a %H"),
        Ok(dt(2020, 12, 31, 0, 0, 0))
    );
    // 2021-01-01 falls in ISO week 53 of 2020.
    assert_eq!(
        PrimitiveDateTime::parse("2020-W53-5 00", "%G-W%V-%u %H"),
        Ok(dt(2021, 1, 1, 0, 0, 0))
    );
    // 2017 starts on a Sunday: its first Sunday is January 1.
    assert_eq!(
        PrimitiveDateTime::parse("2017 01 0 00", "%Y %U %w %H"),
        Ok(dt(2017, 1, 1, 0, 0, 0))
    );
}

#[test]
fn parse_errors() {
    assert_eq!(
        PrimitiveDateTime::parse("2019", "%"),
        Err(ParseError::InvalidFormatDescription)
    );
    assert_eq!(
        PrimitiveDateTime::parse("2019/01/02 00:00:00", "%F %T"),
        Err(ParseError::UnexpectedCharacter { expected: '-', actual: '/' })
    );
    assert_eq!(
        PrimitiveDateTime::parse("2019-01-02", "%F %T"),
        Err(ParseError::UnexpectedEndOfString)
    );
    assert_eq!(
        PrimitiveDateTime::parse("2019-01-02 00:00:00 ", "%F %T"),
        Err(ParseError::UnexpectedTrailingCharacters)
    );
    assert_eq!(PrimitiveDateTime::parse("19-01-02 00", "%Y-%m-%d %H"), Err(ParseError::InvalidYear));
    assert_eq!(PrimitiveDateTime::parse("2019-1-02 00", "%Y-%m-%d %H"), Err(ParseError::InvalidMonth));
    assert_eq!(PrimitiveDateTime::parse("2019-01-x 00", "%Y-%m-%d %H"), Err(ParseError::InvalidDayOfMonth));
    assert_eq!(PrimitiveDateTime::parse("2019-0x", "%Y-%j"), Err(ParseError::InvalidDayOfYear));
    assert_eq!(PrimitiveDateTime::parse("2019-01-02 x", "%F %H"), Err(ParseError::InvalidHour));
    assert_eq!(PrimitiveDateTime::parse("2019-01-02 00:x", "%F %H:%M"), Err(ParseError::InvalidMinute));
    assert_eq!(PrimitiveDateTime::parse("2019-01-02 00:00:x", "%F %T"), Err(ParseError::InvalidSecond));
    assert_eq!(PrimitiveDateTime::parse("2019 x 1 00", "%Y %U %u %H"), Err(ParseError::InvalidWeek));
    assert_eq!(PrimitiveDateTime::parse("2019 01 8 00", "%Y %U %u %H"), Err(ParseError::InvalidDayOfWeek));
    assert_eq!(PrimitiveDateTime::parse("2019 01 7 00", "%Y %U %w %H"), Err(ParseError::InvalidDayOfWeek));
    assert_eq!(PrimitiveDateTime::parse("2019 01 Mo 00", "%Y %U %a %H"), Err(ParseError::InvalidDayOfWeek));
    assert_eq!(PrimitiveDateTime::parse("2019-01-02 01 xm", "%F %I %p"), Err(ParseError::InvalidAmPm));
    assert_eq!(PrimitiveDateTime::parse("19", "%y"), Err(ParseError::UnsupportedSpecifier));
    assert_eq!(PrimitiveDateTime::parse("2019", "%Y"), Err(ParseError::InsufficientInformation));
    assert_eq!(PrimitiveDateTime::parse("2019-01-02", "%F"), Err(ParseError::InsufficientInformation));
    assert_eq!(
        PrimitiveDateTime::parse("2019-02-30 00", "%F %H"),
        Err(out_of_range(Component::Day))
    );
    assert_eq!(
        PrimitiveDateTime::parse("2019-13-01 00", "%F %H"),
        Err(out_of_range(Component::Month))
    );
    assert_eq!(
        PrimitiveDateTime::parse("2019-366 00", "%Y-%j %H"),
        Err(out_of_range(Component::Ordinal))
    );
    assert_eq!(
        PrimitiveDateTime::parse("2019-01-02 24", "%F %H"),
        Err(out_of_range(Component::Hour))
    );
    assert_eq!(
        PrimitiveDateTime::parse("2019-01-02 00:60", "%F %H:%M"),
        Err(out_of_range(Component::Minute))
    );
    assert_eq!(
        PrimitiveDateTime::parse("2019-W53-1 00", "%G-W%V-%u %H"),
        Err(out_of_range(Component::Week))
    );
    assert_eq!(
        PrimitiveDateTime::parse("+999999-01-01 00", "%F %H"),
        Err(out_of_range(Component::Year))
    );
}

#[test]
fn parse_date_errors_come_before_time_errors() {
    assert_eq!(
        PrimitiveDateTime::parse("2019-02-30 25", "%F %H"),
        Err(out_of_range(Component::Day))
    );
}

#[test]
fn parse_items_collects_components() {
    let items = parse_items("2019-002 x 07", "%Y-%j x %I").unwrap();
    assert_eq!(items.year, Some(2019));
    assert_eq!(items.ordinal, Some(2));
    assert_eq!(items.hour_12, Some(7));
    assert_eq!(items.pm, None);
    assert_eq!(items.month, None);
}

#[test]
fn parse_negative_and_long_years() {
    assert_eq!(
        PrimitiveDateTime::parse("-0005-06-07 00", "%Y-%m-%d %H"),
        Ok(dt(-5, 6, 7, 0, 0, 0))
    );
    assert_eq!(
        PrimitiveDateTime::parse("+12345-06-07 00", "%Y-%m-%d %H"),
        Ok(dt(12345, 6, 7, 0, 0, 0))
    );
}

#[test]
fn components_round_trip() {
    for d in [
        dt(2019, 1, 2, 0, 0, 0),
        dt(2020, 12, 31, 23, 59, 59),
        dt(2021, 1, 1, 12, 0, 0),
        dt(-100, 3, 1, 11, 30, 15),
    ] {
        let mut items = ParsedItems::new();
        items.year = Some(d.year());
        items.month = Some(d.month());
        items.day = Some(d.day());
        items.hour_24 = Some(d.hour());
        items.minute = Some(d.minute());
        items.second = Some(d.second());
        items.nanosecond = Some(d.nanosecond());
        assert_eq!(PrimitiveDateTime::try_from_parsed_items(items), Ok(d));

        let mut twelve = items;
        twelve.hour_24 = None;
        twelve.hour_12 = Some((d.hour() + 11) % 12 + 1);
        twelve.pm = Some(d.hour() >= 12);
        assert_eq!(PrimitiveDateTime::try_from_parsed_items(twelve), Ok(d));
    }
}

#[test]
fn date_components_round_trip() {
    for date in [
        Date::try_from_ymd(2019, 1, 1).unwrap(),
        Date::try_from_ymd(2017, 1, 1).unwrap(),
        Date::try_from_ymd(2020, 12, 31).unwrap(),
        Date::try_from_ymd(2021, 1, 3).unwrap(),
        Date::try_from_ymd(2024, 2, 29).unwrap(),
    ] {
        let at_midnight = date.midnight();
        let mut base = ParsedItems::new();
        base.hour_24 = Some(0);

        let mut ordinal = base;
        ordinal.year = Some(date.year());
        ordinal.ordinal = Some(date.ordinal());
        assert_eq!(PrimitiveDateTime::try_from_parsed_items(ordinal), Ok(at_midnight));

        let (iso_year, iso_week) = date.iso_year_week();
        let mut iso = base;
        iso.iso_year = Some(iso_year);
        iso.iso_week = Some(iso_week);
        iso.weekday = Some(date.weekday());
        assert_eq!(PrimitiveDateTime::try_from_parsed_items(iso), Ok(at_midnight));

        let mut sunday = base;
        sunday.year = Some(date.year());
        sunday.sunday_week = Some(date.sunday_based_week());
        sunday.weekday = Some(date.weekday());
        assert_eq!(PrimitiveDateTime::try_from_parsed_items(sunday), Ok(at_midnight));

        let mut monday = base;
        monday.year = Some(date.year());
        monday.monday_week = Some(date.monday_based_week());
        monday.weekday = Some(date.weekday());
        assert_eq!(PrimitiveDateTime::try_from_parsed_items(monday), Ok(at_midnight));
    }
}

#[test]
fn format_then_parse() {
    for d in [
        dt(2019, 1, 2, 0, 0, 0),
        dt(2020, 12, 31, 23, 59, 59),
        dt(1, 1, 1, 12, 0, 1),
        dt(12345, 6, 7, 8, 9, 10),
    ] {
        for format in ["%F %T", "%Y-%j %r", "%G-W%V-%u %H:%M:%S", "%c"] {
            assert_eq!(PrimitiveDateTime::parse(&d.format(format), format), Ok(d), "{}", format);
        }
    }
    let bc = dt(-44, 3, 15, 9, 5, 0);
    for format in ["%F %T", "%c"] {
        assert_eq!(PrimitiveDateTime::parse(&bc.format(format), format), Ok(bc), "{}", format);
    }
}

#[test]
fn format_then_parse_with_nanoseconds() {
    for d in [
        Date::try_from_ymd(2019, 1, 2).unwrap().with_time(Time::try_from_hms_nano(3, 4, 5, 6).unwrap()),
        Date::try_from_ymd(-100_000, 1, 1).unwrap().midnight(),
        Date::try_from_ymd(100_000, 12, 31)
            .unwrap()
            .with_time(Time::try_from_hms_nano(23, 59, 59, 999_999_999).unwrap()),
        Date::try_from_ymd(0, 2, 29).unwrap().with_time(Time::try_from_hms_nano(12, 0, 0, 100).unwrap()),
    ] {
        let text = d.format("%F %T.%N");
        assert_eq!(PrimitiveDateTime::parse(&text, "%F %T.%N"), Ok(d), "{}", text);
    }
    assert_eq!(
        Date::try_from_ymd(-100_000, 1, 1).unwrap().midnight().format("%F %T.%N"),
        "-100000-01-01 0:00:00.000000000"
    );
}

#[test]
fn negative_years_below_four_digits_do_not_read_back_with_default_padding() {
    let bc = dt(-44, 3, 15, 9, 5, 0);
    assert_eq!(bc.format("%Y"), "-044");
    assert_eq!(
        PrimitiveDateTime::parse("-044-03-15 09", "%Y-%m-%d %H"),
        Err(ParseError::InvalidYear)
    );
}

#[test]
fn weekday_numbers_round_trip() {
    assert_eq!(
        PrimitiveDateTime::parse("2019 00 0 00", "%Y %U %w %H"),
        Err(out_of_range(Component::Ordinal))
    );
    assert_eq!(
        PrimitiveDateTime::parse("2019 01 0 00", "%Y %U %w %H"),
        Ok(dt(2019, 1, 6, 0, 0, 0))
    );
    assert_eq!(
        PrimitiveDateTime::parse("2019 01 7 00", "%Y %W %u %H"),
        Ok(dt(2019, 1, 13, 0, 0, 0))
    );
}

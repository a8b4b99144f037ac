use std::cmp::Ordering;

use time::{Date, Duration, PrimitiveDateTime, StdDuration, SystemTime, Time, UtcOffset, Weekday};

fn ymd(year: i32, month: u8, day: u8) -> Date {
    Date::try_from_ymd(year, month, day).unwrap()
}

fn hms(hour: u8, minute: u8, second: u8) -> Time {
    Time::try_from_hms(hour, minute, second).unwrap()
}

fn std_days(days: u64) -> StdDuration {
    StdDuration::from_secs(days * 86_400)
}

#[test]
fn new() {
    assert_eq!(
        PrimitiveDateTime::new(ymd(2019, 1, 1), hms(0, 0, 0)),
        ymd(2019, 1, 1).midnight(),
    );
}

#[test]
fn now() {
    assert!(PrimitiveDateTime::now().unwrap().year() >= 2019);
}

#[test]
fn unix_epoch() {
    assert_eq!(PrimitiveDateTime::unix_epoch(), ymd(1970, 1, 1).midnight());
}

#[test]
fn from_unix_timestamp() {
    assert_eq!(
        PrimitiveDateTime::from_unix_timestamp(0),
        PrimitiveDateTime::unix_epoch()
    );
    assert_eq!(
        PrimitiveDateTime::from_unix_timestamp(1_546_300_800),
        ymd(2019, 1, 1).midnight(),
    );
}

#[test]
fn timestamp() {
    assert_eq!(PrimitiveDateTime::unix_epoch().timestamp(), 0);
    assert_eq!(ymd(2019, 1, 1).midnight().timestamp(), 1_546_300_800);
}

#[test]
fn date() {
    assert_eq!(ymd(2019, 1, 1).midnight().date(), ymd(2019, 1, 1));
}

#[test]
fn time() {
    assert_eq!(ymd(2019, 1, 1).midnight().time(), hms(0, 0, 0));
}

#[test]
fn year() {
    assert_eq!(ymd(2019, 1, 1).midnight().year(), 2019);
    assert_eq!(ymd(2019, 12, 31).midnight().year(), 2019);
    assert_eq!(ymd(2020, 1, 1).midnight().year(), 2020);
}

#[test]
fn month() {
    assert_eq!(ymd(2019, 1, 1).midnight().month(), 1);
    assert_eq!(ymd(2019, 12, 31).midnight().month(), 12);
}

#[test]
fn day() {
    assert_eq!(ymd(2019, 1, 1).midnight().day(), 1);
    assert_eq!(ymd(2019, 12, 31).midnight().day(), 31);
}

#[test]
fn month_day() {
    assert_eq!(ymd(2019, 1, 1).midnight().month_day(), (1, 1));
    assert_eq!(ymd(2019, 12, 31).midnight().month_day(), (12, 31));
}

#[test]
fn ordinal() {
    assert_eq!(ymd(2019, 1, 1).midnight().ordinal(), 1);
    assert_eq!(ymd(2019, 12, 31).midnight().ordinal(), 365);
}

#[test]
fn week() {
    assert_eq!(ymd(2019, 1, 1).midnight().week(), 1);
    assert_eq!(ymd(2019, 10, 4).midnight().week(), 40);
    assert_eq!(ymd(2020, 1, 1).midnight().week(), 1);
    assert_eq!(ymd(2020, 12, 31).midnight().week(), 53);
    assert_eq!(ymd(2021, 1, 1).midnight().week(), 53);
}

#[test]
fn sunday_based_week() {
    assert_eq!(ymd(2019, 1, 1).midnight().sunday_based_week(), 0);
    assert_eq!(ymd(2020, 1, 1).midnight().sunday_based_week(), 0);
    assert_eq!(ymd(2020, 12, 31).midnight().sunday_based_week(), 52);
    assert_eq!(ymd(2021, 1, 1).midnight().sunday_based_week(), 0);
}

#[test]
fn monday_based_week() {
    assert_eq!(ymd(2019, 1, 1).midnight().monday_based_week(), 0);
    assert_eq!(ymd(2020, 1, 1).midnight().monday_based_week(), 0);
    assert_eq!(ymd(2020, 12, 31).midnight().monday_based_week(), 52);
    assert_eq!(ymd(2021, 1, 1).midnight().monday_based_week(), 0);
}

#[test]
fn weekday() {
    assert_eq!(ymd(2019, 1, 1).midnight().weekday(), Weekday::Tuesday);
    assert_eq!(ymd(2019, 2, 1).midnight().weekday(), Weekday::Friday);
    assert_eq!(ymd(2019, 3, 1).midnight().weekday(), Weekday::Friday);
    assert_eq!(ymd(2019, 4, 1).midnight().weekday(), Weekday::Monday);
    assert_eq!(ymd(2019, 5, 1).midnight().weekday(), Weekday::Wednesday);
    assert_eq!(ymd(2019, 6, 1).midnight().weekday(), Weekday::Saturday);
    assert_eq!(ymd(2019, 7, 1).midnight().weekday(), Weekday::Monday);
    assert_eq!(ymd(2019, 8, 1).midnight().weekday(), Weekday::Thursday);
    assert_eq!(ymd(2019, 9, 1).midnight().weekday(), Weekday::Sunday);
    assert_eq!(ymd(2019, 10, 1).midnight().weekday(), Weekday::Tuesday);
    assert_eq!(ymd(2019, 11, 1).midnight().weekday(), Weekday::Friday);
    assert_eq!(ymd(2019, 12, 1).midnight().weekday(), Weekday::Sunday);
}

#[test]
fn hour() {
    assert_eq!(ymd(2019, 1, 1).with_time(hms(0, 0, 0)).hour(), 0);
    assert_eq!(ymd(2019, 1, 1).with_time(hms(23, 59, 59)).hour(), 23);
}

#[test]
fn minute() {
    assert_eq!(ymd(2019, 1, 1).with_time(hms(0, 0, 0)).minute(), 0);
    assert_eq!(ymd(2019, 1, 1).with_time(hms(23, 59, 59)).minute(), 59);
}

#[test]
fn second() {
    assert_eq!(ymd(2019, 1, 1).with_time(hms(0, 0, 0)).second(), 0);
    assert_eq!(ymd(2019, 1, 1).with_time(hms(23, 59, 59)).second(), 59);
}

#[test]
fn millisecond() {
    assert_eq!(ymd(2019, 1, 1).midnight().millisecond(), 0);
    assert_eq!(
        ymd(2019, 1, 1)
            .with_time(Time::try_from_hms_milli(23, 59, 59, 999).unwrap())
            .millisecond(),
        999
    );
}

#[test]
fn microsecond() {
    assert_eq!(ymd(2019, 1, 1).midnight().microsecond(), 0);
    assert_eq!(
        ymd(2019, 1, 1)
            .with_time(Time::try_from_hms_micro(23, 59, 59, 999_999).unwrap())
            .microsecond(),
        999_999
    );
}

#[test]
fn nanosecond() {
    assert_eq!(ymd(2019, 1, 1).midnight().nanosecond(), 0);
    assert_eq!(
        ymd(2019, 1, 1)
            .with_time(Time::try_from_hms_nano(23, 59, 59, 999_999_999).unwrap())
            .nanosecond(),
        999_999_999
    );
}

#[test]
fn using_offset() {
    assert_eq!(
        ymd(2019, 1, 1)
            .midnight()
            .using_offset(UtcOffset::utc())
            .timestamp(),
        1_546_300_800,
    );
}

#[test]
fn format() {
    assert_eq!(
        ymd(2019, 1, 2).midnight().format("%F %r"),
        "2019-01-02 12:00:00 am"
    );
}

#[test]
fn parse() {
    assert_eq!(
        PrimitiveDateTime::parse("2019-01-02 00:00:00", "%F %T"),
        Ok(ymd(2019, 1, 2).midnight()),
    );
    assert_eq!(
        PrimitiveDateTime::parse("2019-002 23:59:59", "%Y-%j %T"),
        Ok(Date::try_from_yo(2019, 2).unwrap().with_time(hms(23, 59, 59)))
    );
    assert_eq!(
        PrimitiveDateTime::parse("2019-W01-3 12:00:00 pm", "%G-W%V-%u %r"),
        Ok(Date::try_from_iso_ywd(2019, 1, Weekday::Wednesday)
            .unwrap()
            .with_time(Time::try_from_hms(12, 0, 0).unwrap())),
    );
}

#[test]
fn add_duration() {
    assert_eq!(
        ymd(2019, 1, 1).midnight() + Duration::days(5),
        ymd(2019, 1, 6).midnight(),
    );
    assert_eq!(
        ymd(2019, 12, 31).midnight() + Duration::days(1),
        ymd(2020, 1, 1).midnight(),
    );
    assert_eq!(
        ymd(2019, 12, 31).with_time(hms(23, 59, 59)) + Duration::seconds(2),
        ymd(2020, 1, 1).with_time(hms(0, 0, 1)),
    );
    assert_eq!(
        ymd(2020, 1, 1).with_time(hms(0, 0, 1)) + Duration::seconds(-2),
        ymd(2019, 12, 31).with_time(hms(23, 59, 59)),
    );
    assert_eq!(
        ymd(1999, 12, 31).with_time(hms(23, 0, 0)) + Duration::hours(1),
        ymd(2000, 1, 1).midnight(),
    );
}

#[test]
fn std_add_duration() {
    assert_eq!(
        SystemTime::from(ymd(2019, 1, 1).midnight()) + Duration::days(5),
        SystemTime::from(ymd(2019, 1, 6).midnight()),
    );
    assert_eq!(
        SystemTime::from(ymd(2019, 12, 31).midnight()) + Duration::days(1),
        SystemTime::from(ymd(2020, 1, 1).midnight()),
    );
    assert_eq!(
        SystemTime::from(ymd(2019, 12, 31).with_time(hms(23, 59, 59))) + Duration::seconds(2),
        SystemTime::from(ymd(2020, 1, 1).with_time(hms(0, 0, 1))),
    );
    assert_eq!(
        SystemTime::from(ymd(2020, 1, 1).with_time(hms(0, 0, 1))) + Duration::seconds(-2),
        SystemTime::from(ymd(2019, 12, 31).with_time(hms(23, 59, 59))),
    );
}

#[test]
fn add_std_duration() {
    assert_eq!(
        ymd(2019, 1, 1).midnight() + std_days(5),
        ymd(2019, 1, 6).midnight(),
    );
    assert_eq!(
        ymd(2019, 12, 31).midnight() + std_days(1),
        ymd(2020, 1, 1).midnight(),
    );
    assert_eq!(
        ymd(2019, 12, 31).with_time(hms(23, 59, 59)) + StdDuration::from_secs(2),
        ymd(2020, 1, 1).with_time(hms(0, 0, 1)),
    );
}

#[test]
fn add_assign_duration() {
    let mut ny19 = ymd(2019, 1, 1).midnight();
    ny19.add_assign_duration(Duration::days(5));
    assert_eq!(ny19, ymd(2019, 1, 6).midnight());

    let mut nye20 = ymd(2019, 12, 31).midnight();
    nye20.add_assign_duration(Duration::days(1));
    assert_eq!(nye20, ymd(2020, 1, 1).midnight());

    let mut nye20t = ymd(2019, 12, 31).with_time(hms(23, 59, 59));
    nye20t.add_assign_duration(Duration::seconds(2));
    assert_eq!(nye20t, ymd(2020, 1, 1).with_time(hms(0, 0, 1)));

    let mut ny20t = ymd(2020, 1, 1).with_time(hms(0, 0, 1));
    ny20t.add_assign_duration(Duration::seconds(-2));
    assert_eq!(ny20t, ymd(2019, 12, 31).with_time(hms(23, 59, 59)));
}

#[test]
fn add_assign_std_duration() {
    let mut ny19 = ymd(2019, 1, 1).midnight();
    ny19.add_assign_std_duration(std_days(5));
    assert_eq!(ny19, ymd(2019, 1, 6).midnight());

    let mut nye20 = ymd(2019, 12, 31).midnight();
    nye20.add_assign_std_duration(std_days(1));
    assert_eq!(nye20, ymd(2020, 1, 1).midnight());

    let mut nye20t = ymd(2019, 12, 31).with_time(hms(23, 59, 59));
    nye20t.add_assign_std_duration(StdDuration::from_secs(2));
    assert_eq!(nye20t, ymd(2020, 1, 1).with_time(hms(0, 0, 1)));
}

#[test]
fn std_add_assign_duration() {
    let mut ny19 = SystemTime::from(ymd(2019, 1, 1).midnight());
    ny19.add_assign_duration(Duration::days(5));
    assert_eq!(ny19, ymd(2019, 1, 6).midnight());

    let mut nye20 = SystemTime::from(ymd(2019, 12, 31).midnight());
    nye20.add_assign_duration(Duration::days(1));
    assert_eq!(nye20, ymd(2020, 1, 1).midnight());

    let mut nye20t = SystemTime::from(ymd(2019, 12, 31).with_time(hms(23, 59, 59)));
    nye20t.add_assign_duration(Duration::seconds(2));
    assert_eq!(nye20t, ymd(2020, 1, 1).with_time(hms(0, 0, 1)));

    let mut ny20t = SystemTime::from(ymd(2020, 1, 1).with_time(hms(0, 0, 1)));
    ny20t.add_assign_duration(Duration::seconds(-2));
    assert_eq!(ny20t, ymd(2019, 12, 31).with_time(hms(23, 59, 59)));
}

#[test]
fn sub_duration() {
    assert_eq!(
        ymd(2019, 1, 6).midnight() - Duration::days(5),
        ymd(2019, 1, 1).midnight(),
    );
    assert_eq!(
        ymd(2020, 1, 1).midnight() - Duration::days(1),
        ymd(2019, 12, 31).midnight(),
    );
    assert_eq!(
        ymd(2020, 1, 1).with_time(hms(0, 0, 1)) - Duration::seconds(2),
        ymd(2019, 12, 31).with_time(hms(23, 59, 59)),
    );
    assert_eq!(
        ymd(2019, 12, 31).with_time(hms(23, 59, 59)) - Duration::seconds(-2),
        ymd(2020, 1, 1).with_time(hms(0, 0, 1)),
    );
    assert_eq!(
        ymd(1999, 12, 31).with_time(hms(23, 0, 0)) - Duration::hours(-1),
        ymd(2000, 1, 1).midnight(),
    );
}

#[test]
fn sub_std_duration() {
    assert_eq!(
        ymd(2019, 1, 6).midnight() - std_days(5),
        ymd(2019, 1, 1).midnight(),
    );
    assert_eq!(
        ymd(2020, 1, 1).midnight() - std_days(1),
        ymd(2019, 12, 31).midnight(),
    );
    assert_eq!(
        ymd(2020, 1, 1).with_time(hms(0, 0, 1)) - StdDuration::from_secs(2),
        ymd(2019, 12, 31).with_time(hms(23, 59, 59)),
    );
}

#[test]
fn std_sub_duration() {
    assert_eq!(
        SystemTime::from(ymd(2019, 1, 6).midnight()) - Duration::days(5),
        SystemTime::from(ymd(2019, 1, 1).midnight()),
    );
    assert_eq!(
        SystemTime::from(ymd(2020, 1, 1).midnight()) - Duration::days(1),
        SystemTime::from(ymd(2019, 12, 31).midnight()),
    );
    assert_eq!(
        SystemTime::from(ymd(2020, 1, 1).with_time(hms(0, 0, 1))) - Duration::seconds(2),
        SystemTime::from(ymd(2019, 12, 31).with_time(hms(23, 59, 59))),
    );
    assert_eq!(
        SystemTime::from(ymd(2019, 12, 31).with_time(hms(23, 59, 59))) - Duration::seconds(-2),
        SystemTime::from(ymd(2020, 1, 1).with_time(hms(0, 0, 1))),
    );
}

#[test]
fn sub_assign_duration() {
    let mut ny19 = ymd(2019, 1, 6).midnight();
    ny19.sub_assign_duration(Duration::days(5));
    assert_eq!(ny19, ymd(2019, 1, 1).midnight());

    let mut ny20 = ymd(2020, 1, 1).midnight();
    ny20.sub_assign_duration(Duration::days(1));
    assert_eq!(ny20, ymd(2019, 12, 31).midnight());

    let mut ny20t = ymd(2020, 1, 1).with_time(hms(0, 0, 1));
    ny20t.sub_assign_duration(Duration::seconds(2));
    assert_eq!(ny20t, ymd(2019, 12, 31).with_time(hms(23, 59, 59)));

    let mut nye20t = ymd(2019, 12, 31).with_time(hms(23, 59, 59));
    nye20t.sub_assign_duration(Duration::seconds(-2));
    assert_eq!(nye20t, ymd(2020, 1, 1).with_time(hms(0, 0, 1)));
}

#[test]
fn sub_assign_std_duration() {
    let mut ny19 = ymd(2019, 1, 6).midnight();
    ny19.sub_assign_std_duration(std_days(5));
    assert_eq!(ny19, ymd(2019, 1, 1).midnight());

    let mut ny20 = ymd(2020, 1, 1).midnight();
    ny20.sub_assign_std_duration(std_days(1));
    assert_eq!(ny20, ymd(2019, 12, 31).midnight());

    let mut ny20t = ymd(2020, 1, 1).with_time(hms(0, 0, 1));
    ny20t.sub_assign_std_duration(StdDuration::from_secs(2));
    assert_eq!(ny20t, ymd(2019, 12, 31).with_time(hms(23, 59, 59)));
}

#[test]
fn std_sub_assign_duration() {
    let mut ny19 = SystemTime::from(ymd(2019, 1, 6).midnight());
    ny19.sub_assign_duration(Duration::days(5));
    assert_eq!(ny19, ymd(2019, 1, 1).midnight());

    let mut ny20 = SystemTime::from(ymd(2020, 1, 1).midnight());
    ny20.sub_assign_duration(Duration::days(1));
    assert_eq!(ny20, ymd(2019, 12, 31).midnight());

    let mut ny20t = SystemTime::from(ymd(2020, 1, 1).with_time(hms(0, 0, 1)));
    ny20t.sub_assign_duration(Duration::seconds(2));
    assert_eq!(ny20t, ymd(2019, 12, 31).with_time(hms(23, 59, 59)));

    let mut nye20t = SystemTime::from(ymd(2019, 12, 31).with_time(hms(23, 59, 59)));
    nye20t.sub_assign_duration(Duration::seconds(-2));
    assert_eq!(nye20t, ymd(2020, 1, 1).with_time(hms(0, 0, 1)));
}

#[test]
fn sub_datetime() {
    assert_eq!(
        ymd(2019, 1, 2).midnight() - ymd(2019, 1, 1).midnight(),
        Duration::days(1)
    );
    assert_eq!(
        ymd(2019, 1, 1).midnight() - ymd(2019, 1, 2).midnight(),
        Duration::days(-1)
    );
    assert_eq!(
        ymd(2020, 1, 1).midnight() - ymd(2019, 12, 31).midnight(),
        Duration::days(1)
    );
    assert_eq!(
        ymd(2019, 12, 31).midnight() - ymd(2020, 1, 1).midnight(),
        Duration::days(-1)
    );
}

#[test]
fn std_sub_datetime() {
    assert_eq!(
        SystemTime::from(ymd(2019, 1, 2).midnight()) - ymd(2019, 1, 1).midnight(),
        Duration::days(1)
    );
    assert_eq!(
        SystemTime::from(ymd(2019, 1, 1).midnight()) - ymd(2019, 1, 2).midnight(),
        Duration::days(-1)
    );
    assert_eq!(
        SystemTime::from(ymd(2020, 1, 1).midnight()) - ymd(2019, 12, 31).midnight(),
        Duration::days(1)
    );
    assert_eq!(
        SystemTime::from(ymd(2019, 12, 31).midnight()) - ymd(2020, 1, 1).midnight(),
        Duration::days(-1)
    );
}

#[test]
fn sub_std() {
    assert_eq!(
        ymd(2019, 1, 2).midnight() - SystemTime::from(ymd(2019, 1, 1).midnight()),
        Duration::days(1)
    );
    assert_eq!(
        ymd(2019, 1, 1).midnight() - SystemTime::from(ymd(2019, 1, 2).midnight()),
        Duration::days(-1)
    );
    assert_eq!(
        ymd(2020, 1, 1).midnight() - SystemTime::from(ymd(2019, 12, 31).midnight()),
        Duration::days(1)
    );
    assert_eq!(
        ymd(2019, 12, 31).midnight() - SystemTime::from(ymd(2020, 1, 1).midnight()),
        Duration::days(-1)
    );
}

fn with_nano(d: Date, hour: u8, minute: u8, second: u8, nanosecond: u32) -> PrimitiveDateTime {
    d.with_time(Time::try_from_hms_nano(hour, minute, second, nanosecond).unwrap())
}

#[test]
fn ord() {
    let a = ymd(2019, 1, 1).midnight();
    assert_eq!(a.partial_cmp(&ymd(2019, 1, 1).midnight()), Some(Ordering::Equal));
    assert_eq!(a.partial_cmp(&ymd(2020, 1, 1).midnight()), Some(Ordering::Less));
    assert_eq!(a.partial_cmp(&ymd(2019, 2, 1).midnight()), Some(Ordering::Less));
    assert_eq!(a.partial_cmp(&ymd(2019, 1, 2).midnight()), Some(Ordering::Less));
    assert_eq!(a.partial_cmp(&with_nano(ymd(2019, 1, 1), 1, 0, 0, 0)), Some(Ordering::Less));
    assert_eq!(a.partial_cmp(&with_nano(ymd(2019, 1, 1), 0, 1, 0, 0)), Some(Ordering::Less));
    assert_eq!(a.partial_cmp(&with_nano(ymd(2019, 1, 1), 0, 0, 1, 0)), Some(Ordering::Less));
    assert_eq!(a.partial_cmp(&with_nano(ymd(2019, 1, 1), 0, 0, 0, 1)), Some(Ordering::Less));
    assert_eq!(ymd(2020, 1, 1).midnight().partial_cmp(&a), Some(Ordering::Greater));
    assert_eq!(ymd(2019, 2, 1).midnight().partial_cmp(&a), Some(Ordering::Greater));
    assert_eq!(ymd(2019, 1, 2).midnight().partial_cmp(&a), Some(Ordering::Greater));
    assert_eq!(with_nano(ymd(2019, 1, 1), 1, 0, 0, 0).partial_cmp(&a), Some(Ordering::Greater));
    assert_eq!(with_nano(ymd(2019, 1, 1), 0, 1, 0, 0).partial_cmp(&a), Some(Ordering::Greater));
    assert_eq!(with_nano(ymd(2019, 1, 1), 0, 0, 1, 0).partial_cmp(&a), Some(Ordering::Greater));
    assert_eq!(with_nano(ymd(2019, 1, 1), 0, 0, 0, 1).partial_cmp(&a), Some(Ordering::Greater));
}

#[test]
fn eq_std() {
    let now_datetime = PrimitiveDateTime::now().unwrap();
    let now_systemtime = SystemTime::from(now_datetime);
    assert_eq!(now_datetime, now_systemtime);
}

#[test]
fn std_eq() {
    let now_datetime = PrimitiveDateTime::now().unwrap();
    let now_systemtime = SystemTime::from(now_datetime);
    assert_eq!(now_datetime, now_systemtime);
}

#[test]
fn ord_std() {
    let a = ymd(2019, 1, 1).midnight();
    assert_eq!(a, SystemTime::from(ymd(2019, 1, 1).midnight()));
    assert!(a < SystemTime::from(ymd(2020, 1, 1).midnight()));
    assert!(a < SystemTime::from(ymd(2019, 2, 1).midnight()));
    assert!(a < SystemTime::from(ymd(2019, 1, 2).midnight()));
    assert!(a < SystemTime::from(ymd(2019, 1, 1).with_time(hms(1, 0, 0))));
    assert!(a < SystemTime::from(ymd(2019, 1, 1).with_time(hms(0, 1, 0))));
    assert!(a < SystemTime::from(ymd(2019, 1, 1).with_time(hms(0, 0, 1))));
    assert!(a < SystemTime::from(with_nano(ymd(2019, 1, 1), 0, 0, 0, 1_000_000)));
    assert!(ymd(2020, 1, 1).midnight() > SystemTime::from(a));
    assert!(ymd(2019, 2, 1).midnight() > SystemTime::from(a));
    assert!(ymd(2019, 1, 2).midnight() > SystemTime::from(a));
    assert!(ymd(2019, 1, 1).with_time(hms(1, 0, 0)) > SystemTime::from(a));
    assert!(ymd(2019, 1, 1).with_time(hms(0, 1, 0)) > SystemTime::from(a));
    assert!(ymd(2019, 1, 1).with_time(hms(0, 0, 1)) > SystemTime::from(a));
    assert!(with_nano(ymd(2019, 1, 1), 0, 0, 0, 1) > SystemTime::from(a));
}

#[test]
fn std_ord() {
    let a = ymd(2019, 1, 1).midnight();
    assert_eq!(SystemTime::from(a), ymd(2019, 1, 1).midnight());
    assert!(SystemTime::from(a) < ymd(2020, 1, 1).midnight());
    assert!(SystemTime::from(a) < ymd(2019, 2, 1).midnight());
    assert!(SystemTime::from(a) < ymd(2019, 1, 2).midnight());
    assert!(SystemTime::from(a) < ymd(2019, 1, 1).with_time(hms(1, 0, 0)));
    assert!(SystemTime::from(a) < ymd(2019, 1, 1).with_time(hms(0, 1, 0)));
    assert!(SystemTime::from(a) < ymd(2019, 1, 1).with_time(hms(0, 0, 1)));
    assert!(SystemTime::from(a) < with_nano(ymd(2019, 1, 1), 0, 0, 0, 1));
    assert!(SystemTime::from(ymd(2020, 1, 1).midnight()) > a);
    assert!(SystemTime::from(ymd(2019, 2, 1).midnight()) > a);
    assert!(SystemTime::from(ymd(2019, 1, 2).midnight()) > a);
    assert!(SystemTime::from(ymd(2019, 1, 1).with_time(hms(1, 0, 0))) > a);
    assert!(SystemTime::from(ymd(2019, 1, 1).with_time(hms(0, 1, 0))) > a);
    assert!(SystemTime::from(ymd(2019, 1, 1).with_time(hms(0, 0, 1))) > a);
    assert!(SystemTime::from(with_nano(ymd(2019, 1, 1), 0, 0, 0, 1_000_000)) > a);
}

#[test]
fn from_std() {
    assert_eq!(
        PrimitiveDateTime::from(SystemTime::unix_epoch()),
        PrimitiveDateTime::unix_epoch()
    );
}

#[test]
fn to_std() {
    assert_eq!(
        SystemTime::from(PrimitiveDateTime::unix_epoch()),
        SystemTime::unix_epoch()
    );
}

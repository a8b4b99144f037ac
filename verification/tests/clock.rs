use std::cmp::Ordering;

use time::{Date, Duration, PrimitiveDateTime, StdDuration, SystemTime, Time};

#[test]
fn std_duration_from_std() {
    assert_eq!(
        StdDuration::from_std(&core::time::Duration::new(5, 7)),
        StdDuration::new(5, 7)
    );
    assert_eq!(
        StdDuration::from_std(&core::time::Duration::from_millis(1_500)).as_nanos(),
        1_500_000_000
    );
}

#[test]
fn system_time_from_std() {
    let epoch = std::time::SystemTime::UNIX_EPOCH;
    assert_eq!(SystemTime::from_std(&epoch), Some(SystemTime::unix_epoch()));

    let later = epoch + core::time::Duration::new(86_400, 5);
    let expected = Date::try_from_ymd(1970, 1, 2)
        .unwrap()
        .with_time(Time::try_from_hms_nano(0, 0, 0, 5).unwrap());
    assert_eq!(
        SystemTime::from_std(&later).map(PrimitiveDateTime::from),
        Some(expected)
    );

    let earlier = epoch - core::time::Duration::new(1, 0);
    let expected = Date::try_from_ymd(1969, 12, 31)
        .unwrap()
        .with_time(Time::try_from_hms(23, 59, 59).unwrap());
    assert_eq!(
        SystemTime::from_std(&earlier).map(PrimitiveDateTime::from),
        Some(expected)
    );
}

#[test]
fn system_time_from_since_epoch() {
    assert_eq!(
        SystemTime::from_since_epoch(Ok(StdDuration::new(1, 5))).map(|t| t.nanos_since_unix_epoch()),
        Some(1_000_000_005)
    );
    assert_eq!(
        SystemTime::from_since_epoch(Err(StdDuration::new(1, 5))).map(|t| t.nanos_since_unix_epoch()),
        Some(-1_000_000_005)
    );
    assert_eq!(SystemTime::from_since_epoch(Ok(StdDuration::from_secs(u64::MAX))), None);
    assert_eq!(SystemTime::from_since_epoch(Err(StdDuration::from_secs(u64::MAX))), None);
}

#[test]
fn system_time_now_is_after_2019() {
    let now = SystemTime::now().unwrap();
    assert!(PrimitiveDateTime::from(now).year() >= 2019);
    assert!(now.nanos_since_unix_epoch() > 0);
}

#[test]
fn duration_order() {
    let spans = [
        Duration::seconds(-1),
        Duration::nanoseconds(-3),
        Duration::zero(),
        Duration::nanosecond(),
        Duration::new(1, -5),
        Duration::second(),
    ];
    for (i, a) in spans.iter().enumerate() {
        for (j, b) in spans.iter().enumerate() {
            assert_eq!(a.partial_cmp(b), Some(i.cmp(&j)), "{:?} {:?}", a, b);
            assert_eq!(a.cmp(b), i.cmp(&j));
        }
    }
    assert!(Duration::seconds(-1) < Duration::zero());
    assert_eq!(Duration::minute().partial_cmp(&Duration::seconds(60)), Some(Ordering::Equal));
}

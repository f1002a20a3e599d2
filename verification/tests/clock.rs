use std::time::Duration;
use std::time::SystemTime;
use std::time::UNIX_EPOCH;

use chrono::DateTime;
use give_me_dns::clock::seconds_since_epoch;
use give_me_dns::clock::Sum;
use give_me_dns::clock::Timestamp;
use give_me_dns::clock::FIRST_SECOND;
use give_me_dns::clock::LAST_SECOND;

fn sum(t: Timestamp, d: Duration) -> Option<(i64, u32)> {
    match t.plus(d) {
        Sum::At(s) => Some((s.timestamp(), s.subsec_nanos())),
        _ => None,
    }
}

#[test]
fn the_calendar_is_that_of_chrono() {
    for (secs, nanos) in [
        (0i64, 0u32),
        (0, 999_999_999),
        (0, 1_000_000_000),
        (59, 1_000_000_000),
        (59, 1_999_999_999),
        (59, 2_000_000_000),
        (-1, 1_500_000_000),
        (-2, 1_500_000_000),
        (FIRST_SECOND, 0),
        (FIRST_SECOND - 1, 0),
        (LAST_SECOND, 999_999_999),
        (LAST_SECOND + 1, 0),
        (i64::MAX, 0),
        (i64::MIN, 0),
    ] {
        assert_eq!(
            Timestamp::new(secs, nanos).is_some(),
            DateTime::from_timestamp(secs, nanos).is_some(),
            "{} {}",
            secs,
            nanos
        );
    }
    assert_eq!(DateTime::<chrono::Utc>::MAX_UTC.timestamp(), LAST_SECOND);
    assert_eq!(DateTime::<chrono::Utc>::MIN_UTC.timestamp(), FIRST_SECOND);
}

#[test]
fn durations_are_added() {
    let t = Timestamp::new(1000, 600_000_000).unwrap();
    assert_eq!(sum(t, Duration::from_secs(5)), Some((1005, 600_000_000)));
    assert_eq!(sum(t, Duration::from_millis(1500)), Some((1002, 100_000_000)));
    let before = Timestamp::new(-1, 0).unwrap();
    assert_eq!(sum(before, Duration::from_millis(1500)), Some((0, 500_000_000)));
}

#[test]
fn leap_seconds_run_on() {
    let leap = Timestamp::new(59, 1_300_000_000).unwrap();
    assert_eq!(sum(leap, Duration::from_secs(0)), Some((59, 1_300_000_000)));
    assert_eq!(sum(leap, Duration::from_millis(600)), Some((59, 1_900_000_000)));
    assert_eq!(sum(leap, Duration::from_millis(700)), Some((60, 0)));
    assert_eq!(sum(leap, Duration::from_secs(1)), Some((60, 300_000_000)));
}

#[test]
fn sums_have_limits() {
    let last = Timestamp::new(LAST_SECOND, 0).unwrap();
    assert_eq!(sum(last, Duration::from_millis(999)), Some((LAST_SECOND, 999_000_000)));
    assert!(matches!(last.plus(Duration::from_secs(1)), Sum::OutOfCalendar));
    let zero = Timestamp::new(0, 0).unwrap();
    let longest = Duration::from_millis(i64::MAX as u64);
    assert!(matches!(zero.plus(longest), Sum::OutOfCalendar));
    match zero.plus(longest + Duration::from_nanos(1)) {
        Sum::TooLong(message) => assert_eq!(
            message,
            "Source duration value is out of range for the target type"
        ),
        _ => panic!("added"),
    }
}

#[test]
fn points_in_time_are_ordered() {
    let t = |secs: i64, nanos: u32| Timestamp::new(secs, nanos).unwrap();
    assert!(t(1, 5).before(&t(2, 0)));
    assert!(t(1, 5).before(&t(1, 6)));
    assert!(!t(1, 5).before(&t(1, 5)));
    assert!(!t(2, 0).before(&t(1, 999)));
    assert!(t(-5, 0).before(&t(-4, 0)));
}

#[test]
fn points_in_time_are_written() {
    assert_eq!(
        Timestamp::new(1431648000, 0).unwrap().to_rfc3339(),
        "2015-05-15T00:00:00+00:00"
    );
    assert_eq!(
        Timestamp::new(1431648000, 120_000_000).unwrap().to_rfc3339(),
        "2015-05-15T00:00:00.120+00:00"
    );
}

#[test]
fn the_clocks_agree() {
    let now = Timestamp::now().timestamp();
    let seconds = seconds_since_epoch(SystemTime::now()).unwrap() as i64;
    assert!((now - seconds).abs() <= 2);
    assert!(now > 1_700_000_000);
    assert_eq!(seconds_since_epoch(UNIX_EPOCH + Duration::from_millis(5900)), Some(5));
    assert_eq!(seconds_since_epoch(UNIX_EPOCH - Duration::from_secs(1)), None);
}

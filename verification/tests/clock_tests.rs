use chrono::TimeZone;
use neatnik::clock::{Clock, FixedClock, SystemClock};
use neatnik::datetime::Timestamp;

fn from_chrono(dt: chrono::DateTime<chrono::Utc>) -> Timestamp {
    Timestamp::new(dt.timestamp(), dt.timestamp_subsec_nanos()).unwrap()
}

#[test]
fn system_clock_returns_a_recent_time() {
    let before = from_chrono(chrono::Utc::now());
    let now = SystemClock.now();
    let after = from_chrono(chrono::Utc::now());
    assert!(before.le(&now) && now.le(&after));
}

#[test]
fn fixed_clock_always_returns_the_same_time() {
    let fixed = from_chrono(chrono::Utc.with_ymd_and_hms(2027, 1, 1, 0, 0, 0).unwrap());
    let clock = FixedClock::new(fixed.clone());
    assert_eq!(clock.now(), fixed);
    assert_eq!(clock.now(), fixed);
    assert_eq!(clock.fixed_now(), fixed);
}

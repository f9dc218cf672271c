use std::time::{Duration, Instant};

use picam::clock::{epoch_millis, format_duration, timestamp_ms, whole_millis};

#[test]
fn format_duration_zero() {
    assert_eq!(format_duration(Duration::from_secs(0).as_secs()), "00:00");
}

#[test]
fn format_duration_under_one_minute() {
    assert_eq!(format_duration(Duration::from_secs(45).as_secs()), "00:45");
}

#[test]
fn format_duration_exactly_one_minute() {
    assert_eq!(format_duration(Duration::from_secs(60).as_secs()), "01:00");
}

#[test]
fn format_duration_mixed() {
    assert_eq!(format_duration(Duration::from_secs(125).as_secs()), "02:05");
}

#[test]
fn format_duration_over_one_hour() {
    assert_eq!(format_duration(Duration::from_secs(3661).as_secs()), "61:01");
}

#[test]
fn format_duration_over_a_hundred_minutes() {
    assert_eq!(format_duration(6000), "100:00");
}

#[test]
fn timestamp_ms_is_nonzero() {
    assert!(timestamp_ms().unwrap() > 0);
}

#[test]
fn timestamp_ms_advances() {
    let t1 = timestamp_ms().unwrap();
    let start = Instant::now();
    while start.elapsed() < Duration::from_millis(2) {}
    let t2 = timestamp_ms().unwrap();
    assert!(t2 > t1);
}

#[test]
fn whole_millis_drops_the_rest() {
    assert_eq!(whole_millis(1, 2_999_999), 1_002);
    assert_eq!(whole_millis(0, 999_999), 0);
}

#[test]
fn readings_before_the_epoch_give_nothing() {
    assert_eq!(epoch_millis(None), None);
    assert_eq!(epoch_millis(Some((0, 0))), Some(0));
    assert_eq!(epoch_millis(Some((1_700_000_000, 123_456_789))), Some(1_700_000_000_123));
}

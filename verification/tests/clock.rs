use metastable::clock::{day_start_of, get_current_timestamp, get_today_start_timestamp_utc8, timestamp_of, ClockReading};

#[test]
fn day_starts() {
    // 2023-11-14T22:13:20Z is 2023-11-15 06:13:20 in UTC+8, whose day starts at 1699977600.
    assert_eq!(day_start_of(1_700_000_000), 1_699_977_600);
    assert_eq!(day_start_of(1_699_977_600), 1_699_977_600);
    assert_eq!(day_start_of(1_699_977_599), 1_699_977_600 - 86400);
    assert_eq!(day_start_of(0), -28800);
    assert_eq!(day_start_of(57600), 57600);
    assert_eq!(day_start_of(-28800), -28800);
    assert_eq!(day_start_of(-28801), -28800);
}

#[test]
fn clock_readings() {
    assert_eq!(timestamp_of(ClockReading::After(5)), 5);
    assert_eq!(timestamp_of(ClockReading::After(u64::MAX)), -1);
    assert_eq!(timestamp_of(ClockReading::Before(5)), -5);
    assert_eq!(timestamp_of(ClockReading::Before(u64::MAX)), i64::MIN);
    let now = get_current_timestamp();
    assert!(now > 1_600_000_000);
    let start = get_today_start_timestamp_utc8();
    assert_eq!((start + 28800) % 86400, 0);
    assert!(start <= get_current_timestamp());
    assert!(now - start < 86400 + 5);
}

use std::time::Duration;
use sysz::time::SleepTime;

#[test]
fn sleep_time_new_keeps_the_nanoseconds() {
    assert_eq!(SleepTime::new(0).as_nanos(), 0);
    assert_eq!(SleepTime::new(1_500_000_000).as_nanos(), 1_500_000_000);
    assert_eq!(SleepTime::new(u128::MAX).as_nanos(), u128::MAX);
}

#[test]
fn sleep_time_from_millis_counts_a_million_nanoseconds_each() {
    assert_eq!(SleepTime::from_millis(0).as_nanos(), 0);
    assert_eq!(SleepTime::from_millis(250).as_nanos(), 250_000_000);
    assert_eq!(SleepTime::from_millis(u64::MAX).as_nanos(), u64::MAX as u128 * 1_000_000);
}

#[test]
fn sleep_time_from_u64_reads_milliseconds() {
    assert_eq!(SleepTime::from(3u64), SleepTime::new(3_000_000));
    let time: SleepTime = 7u64.into();
    assert_eq!(time.as_nanos(), 7_000_000);
}

#[test]
fn sleep_time_to_duration() {
    assert_eq!(SleepTime::new(1_500_000_000).to_duration(), Duration::new(1, 500_000_000));
    assert_eq!(SleepTime::from_millis(20).to_duration(), Duration::from_millis(20));
    assert_eq!(SleepTime::new(0).to_duration(), Duration::ZERO);
}

#[test]
fn sleep_time_to_duration_keeps_the_low_64_bits() {
    assert_eq!(SleepTime::new(u64::MAX as u128).to_duration(), Duration::from_nanos(u64::MAX));
    assert_eq!(SleepTime::new((1u128 << 64) + 5).to_duration(), Duration::from_nanos(5));
    assert_eq!(SleepTime::new(1u128 << 64).to_duration(), Duration::ZERO);
}

#[test]
fn sleep_time_from_duration_keeps_the_span() {
    let d = Duration::new(3, 17);
    assert_eq!(SleepTime::from_duration(d).as_nanos(), 3_000_000_017);
    assert_eq!(SleepTime::from_duration(d).to_duration(), d);
    assert_eq!(SleepTime::from_duration(Duration::MAX).as_nanos(), Duration::MAX.as_nanos());
}

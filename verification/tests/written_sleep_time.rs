use sysz::time::sleep::{split_amount, unit_nanos};
use sysz::time::SleepError;

fn parts(s: &str) -> (String, String) {
    let written = split_amount(s).ok().unwrap();
    (written.amount, written.unit)
}

fn format_reason<T>(r: Result<T, SleepError>) -> String {
    match r {
        Err(SleepError::InvalidFormat(text)) => text,
        Err(other) => panic!("expected InvalidFormat, got {:?}", other),
        Ok(_) => panic!("expected InvalidFormat, got a value"),
    }
}

#[test]
fn written_sleep_time_is_cut_into_amount_and_unit() {
    assert_eq!(parts("100ms"), ("100".to_string(), "ms".to_string()));
    assert_eq!(parts("2s"), ("2".to_string(), "s".to_string()));
    assert_eq!(parts("1.5 h"), ("1.5".to_string(), "h".to_string()));
    assert_eq!(parts("  -3.25  Mins  "), ("-3.25".to_string(), "mins".to_string()));
    assert_eq!(parts("+7"), ("+7".to_string(), "".to_string()));
    assert_eq!(parts("ms"), ("".to_string(), "ms".to_string()));
    assert_eq!(parts("1e3s"), ("1".to_string(), "e3s".to_string()));
    assert_eq!(parts("1 2"), ("1".to_string(), "2".to_string()));
    assert_eq!(parts("5\u{212a}"), ("5".to_string(), "k".to_string()));
}

#[test]
fn written_sleep_time_that_is_empty_is_refused() {
    assert_eq!(format_reason(split_amount("")), "empty string");
    assert_eq!(format_reason(split_amount(" \t\n")), "empty string");
}

#[test]
fn unit_nanos_of_every_unit() {
    for (unit, nanos) in [
        ("", 1_000_000_000u64),
        ("s", 1_000_000_000),
        ("sec", 1_000_000_000),
        ("secs", 1_000_000_000),
        ("ms", 1_000_000),
        ("msec", 1_000_000),
        ("us", 1_000),
        ("usec", 1_000),
        ("ns", 1),
        ("nsec", 1),
        ("m", 60_000_000_000),
        ("min", 60_000_000_000),
        ("mins", 60_000_000_000),
        ("h", 3_600_000_000_000),
        ("hour", 3_600_000_000_000),
        ("hours", 3_600_000_000_000),
    ] {
        assert_eq!(unit_nanos(unit).ok(), Some(nanos), "for {:?}", unit);
    }
}

#[test]
fn unit_nanos_names_the_unknown_unit() {
    assert_eq!(format_reason(unit_nanos("days")), "unknown unit: 'days'");
    assert_eq!(format_reason(unit_nanos("S")), "unknown unit: 'S'");
    assert_eq!(format_reason(unit_nanos(" s")), "unknown unit: ' s'");
    assert_eq!(format_reason(unit_nanos("'")), "unknown unit: '''");
}

use rand::distr::uniform::Error as Refusal;
use sysz::crypto::random as crypto;
use sysz::utils::random as utils;
use sysz::Error;

#[test]
fn random_value_lies_within_the_bounds() {
    for _ in 0..200 {
        let v = crypto::random(-3i32, 4i32).unwrap();
        assert!((-3..=4).contains(&v));
        let v = crypto::random(7u8, 7u8).unwrap();
        assert_eq!(v, 7);
    }
}

#[test]
fn random_value_with_bounds_in_descending_order_is_refused() {
    assert!(matches!(crypto::random(5u32, 1u32), Err(Error::RandomErrorWrapper(_))));
}

#[test]
fn random_value_of_the_lenient_kind_swaps_the_bounds() {
    for _ in 0..200 {
        let v = utils::random(9i64, 2i64).unwrap();
        assert!((2..=9).contains(&v));
        let v = utils::random(2i64, 9i64).unwrap();
        assert!((2..=9).contains(&v));
    }
}

#[test]
fn random_value_of_bounds_that_cannot_be_compared_is_refused() {
    match utils::random(f64::NAN, 1.0) {
        Err(Error::InvalidSyntax(text)) => {
            assert_eq!(text, "Invalid range comparison: cannot compare given values")
        }
        other => panic!("expected InvalidSyntax, got {:?}", other),
    }
}

#[test]
fn random_order_bounds() {
    assert_eq!(utils::order_bounds(1, 2).unwrap(), (1, 2));
    assert_eq!(utils::order_bounds(2, 1).unwrap(), (1, 2));
    assert_eq!(utils::order_bounds(3, 3).unwrap(), (3, 3));
    assert_eq!(utils::order_bounds(0.5, -0.5).unwrap(), (-0.5, 0.5));
    assert!(matches!(utils::order_bounds(f32::NAN, 0.0), Err(Error::InvalidSyntax(_))));
}

#[test]
fn random_bool_gives_both_values() {
    let mut seen = [false, false];
    for _ in 0..400 {
        seen[crypto::random_bool() as usize] = true;
        seen[utils::random_bool().unwrap() as usize] = true;
    }
    assert_eq!(seen, [true, true]);
}

#[test]
fn random_string_has_the_length_asked_for() {
    for length in [0usize, 1, 2, 17, 200] {
        assert_eq!(crypto::random_string(length, None).unwrap().chars().count(), length);
        assert_eq!(utils::random_string(length, Some("xyz")).unwrap().chars().count(), length);
    }
}

#[test]
fn random_string_without_charset_is_alphanumeric() {
    let text = crypto::random_string(500, None).unwrap();
    assert!(text.chars().all(|c| c.is_ascii_alphanumeric()));
    let text = utils::random_string(500, None).unwrap();
    assert!(text.chars().all(|c| c.is_ascii_alphanumeric()));
}

#[test]
fn random_string_draws_from_the_charset() {
    let text = crypto::random_string(300, Some("aé日")).unwrap();
    assert!(text.chars().all(|c| "aé日".contains(c)));
    assert!(text.contains('a') && text.contains('é') && text.contains('日'));
    assert_eq!(crypto::random_string(5, Some("q")).unwrap(), "qqqqq");
}

#[test]
fn random_string_refuses_an_empty_charset() {
    for r in [crypto::random_string(3, Some("")), utils::random_string(0, Some(""))] {
        match r {
            Err(Error::InvalidSyntax(text)) => assert_eq!(text, "Provided charset is empty"),
            other => panic!("expected InvalidSyntax, got {:?}", other),
        }
    }
}

#[test]
fn random_bytes_has_the_length_asked_for() {
    for length in [0usize, 1, 64, 1000] {
        assert_eq!(crypto::random_bytes(length).unwrap().len(), length);
        assert_eq!(utils::random_bytes(length).unwrap().len(), length);
    }
    let bytes = crypto::random_bytes(4096).unwrap();
    assert!(bytes.iter().any(|&b| b != bytes[0]));
}

#[test]
fn random_range_lies_within_the_range() {
    for _ in 0..200 {
        assert!((10..=12).contains(&crypto::random_range(10u16..=12).unwrap()));
        assert!((-1..=1).contains(&utils::random_range(-1i8..=1).unwrap()));
    }
    assert_eq!(crypto::random_range(5..=5).unwrap(), 5);
}

#[test]
fn random_range_that_is_empty_is_refused() {
    assert!(matches!(crypto::random_range(3..=2), Err(Error::RandomErrorWrapper(_))));
    assert!(matches!(utils::random_range(3..=2), Err(Error::RandomErrorWrapper(_))));
}

#[test]
fn random_ratio_of_one_and_of_zero_is_certain() {
    for _ in 0..100 {
        assert!(crypto::random_ratio(3, 3).unwrap());
        assert!(!crypto::random_ratio(0, 3).unwrap());
        assert!(utils::random_ratio(1, 1).unwrap());
        assert!(!utils::random_ratio(0, 1).unwrap());
    }
}

#[test]
fn random_ratio_between_gives_both_values() {
    let mut seen = [false, false];
    for _ in 0..400 {
        seen[crypto::random_ratio(1, 2).unwrap() as usize] = true;
    }
    assert_eq!(seen, [true, true]);
}

#[test]
fn random_ratio_of_the_lenient_kind_refuses_a_zero_denominator() {
    match utils::random_ratio(0, 0) {
        Err(Error::InvalidSyntax(text)) => assert_eq!(text, "Denominator cannot be zero"),
        other => panic!("expected InvalidSyntax, got {:?}", other),
    }
    assert!(matches!(utils::random_ratio(4, 0), Err(Error::InvalidSyntax(_))));
}

#[test]
fn random_outcome_hands_on_the_value_and_wraps_the_refusal() {
    assert_eq!(crypto::outcome(Ok::<i32, Refusal>(7)).unwrap(), 7);
    assert_eq!(crypto::outcome(Ok::<char, Refusal>('x')).unwrap(), 'x');
    assert!(matches!(
        crypto::outcome(Err::<i32, Refusal>(Refusal::EmptyRange)),
        Err(Error::RandomErrorWrapper(Refusal::EmptyRange))
    ));
    assert!(matches!(
        crypto::outcome(Err::<u8, Refusal>(Refusal::NonFinite)),
        Err(Error::RandomErrorWrapper(Refusal::NonFinite))
    ));
}

#[test]
fn random_range_bounds_are_the_ends_of_the_range() {
    assert_eq!(crypto::range_bounds(&(3..=9)), (3, 9));
    assert_eq!(crypto::range_bounds(&(9..=3)), (9, 3));
    assert_eq!(crypto::range_bounds(&('a'..='a')), ('a', 'a'));
}

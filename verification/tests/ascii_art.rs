use sysz::utils::ascii::{
    check_request, render_rows, scaled_height, CHAR_SET_DETAILED, CHAR_SET_MEDIUM,
    CHAR_SET_SIMPLE, CHAR_SET_VERY_DETAILED,
};
use sysz::Error;

fn refusal(r: Result<(), Error>) -> (String, String, String) {
    match r {
        Err(Error::ValidationError { expected, actual, context }) => {
            (expected, actual, context.unwrap())
        }
        other => panic!("expected ValidationError, got {:?}", other),
    }
}

#[test]
fn ascii_request_that_is_sound_is_accepted() {
    assert!(check_request(10, true, "2", 100, 30).is_ok());
    assert!(check_request(1, true, "0.5", 1, 1).is_ok());
}

#[test]
fn ascii_request_without_characters_is_refused_first() {
    assert_eq!(
        refusal(check_request(0, false, "0", 0, 0)),
        (
            "Non-empty character set".to_string(),
            "Empty character set".to_string(),
            "ASCII conversion requires at least one character".to_string()
        )
    );
}

#[test]
fn ascii_request_with_a_compensation_that_is_not_positive_is_refused() {
    assert_eq!(
        refusal(check_request(3, false, "-1.5", 0, 0)),
        (
            "Positive aspect ratio compensation".to_string(),
            "Compensation factor: -1.5".to_string(),
            "Aspect ratio compensation must be greater than 0".to_string()
        )
    );
}

#[test]
fn ascii_request_with_zero_width_is_refused() {
    assert_eq!(
        refusal(check_request(3, true, "2", 0, 0)),
        (
            "Positive width".to_string(),
            "Width: 0".to_string(),
            "Target width must be greater than 0".to_string()
        )
    );
}

#[test]
fn ascii_request_for_an_image_without_rows_is_refused() {
    assert_eq!(
        refusal(check_request(3, true, "2", 80, 0)),
        (
            "Non-zero image height".to_string(),
            "Image height: 0".to_string(),
            "Input image height cannot be zero".to_string()
        )
    );
}

#[test]
fn ascii_height_is_bounded_and_at_least_one() {
    assert_eq!(scaled_height(20, 50), 20);
    assert_eq!(scaled_height(70, 50), 50);
    assert_eq!(scaled_height(0, 50), 1);
    assert_eq!(scaled_height(7, 0), 1);
    assert_eq!(scaled_height(0, 0), 1);
    assert_eq!(scaled_height(u32::MAX, u32::MAX), u32::MAX);
    for (wanted, max) in [(3u32, 9u32), (9, 3), (0, 4), (4, 0), (5, 5)] {
        assert_eq!(scaled_height(wanted, max), std::cmp::max(1, std::cmp::min(wanted, max)));
    }
}

#[test]
fn ascii_rows_end_in_line_feeds() {
    let set: Vec<char> = " .#".chars().collect();
    let art = render_rows(&vec![0, 1, 2, 2, 1, 0], 3, 2, &set);
    assert_eq!(art, " .#\n#. \n");
    let art = render_rows(&vec![0, 1, 2, 2, 1, 0], 2, 3, &set);
    assert_eq!(art, " .\n##\n. \n");
}

#[test]
fn ascii_rows_take_the_last_character_for_a_level_beyond_the_set() {
    let set: Vec<char> = "ab".chars().collect();
    assert_eq!(render_rows(&vec![0, 1, 2, usize::MAX], 4, 1, &set), "abbb\n");
}

#[test]
fn ascii_rows_of_an_empty_grid() {
    let set: Vec<char> = "ab".chars().collect();
    assert_eq!(render_rows(&Vec::new(), 0, 0, &set), "");
    assert_eq!(render_rows(&Vec::new(), 5, 0, &set), "");
    assert_eq!(render_rows(&Vec::new(), 0, 3, &set), "\n\n\n");
}

#[test]
fn ascii_character_sets_grow_in_detail() {
    assert_eq!(CHAR_SET_SIMPLE.chars().count(), 14);
    assert_eq!(CHAR_SET_MEDIUM.chars().count(), 31);
    assert_eq!(CHAR_SET_DETAILED.chars().count(), 54);
    assert_eq!(CHAR_SET_VERY_DETAILED.chars().count(), 93);
    for set in [CHAR_SET_SIMPLE, CHAR_SET_MEDIUM, CHAR_SET_DETAILED, CHAR_SET_VERY_DETAILED] {
        assert!(set.starts_with(' ') && set.ends_with('@'));
    }
}

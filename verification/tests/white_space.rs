use sysz::encode::hex;
use sysz::math::bin;

fn has_white_space_property(c: char) -> bool {
    matches!(
        c as u32,
        0x09..=0x0D
            | 0x20
            | 0x85
            | 0xA0
            | 0x1680
            | 0x2000..=0x200A
            | 0x2028
            | 0x2029
            | 0x202F
            | 0x205F
            | 0x3000
    )
}

#[test]
fn white_space_is_what_unicode_lists() {
    for c in '\u{0}'..=char::MAX {
        assert_eq!(c.is_whitespace(), has_white_space_property(c), "for U+{:04X}", c as u32);
    }
}

#[test]
fn white_space_is_skipped_by_the_loose_checks() {
    let mut text = String::new();
    for c in '\u{0}'..='\u{3100}' {
        text.clear();
        text.push(c);
        assert_eq!(hex::is_valid(&text), c.is_whitespace() || c.is_ascii_hexdigit());
        assert_eq!(bin::is_valid(&text), c.is_whitespace() || c == '0' || c == '1');
    }
}

#[test]
fn white_space_of_every_kind_is_skipped_by_decode() {
    let spaces = "\t\n\u{b}\u{c}\r \u{85}\u{a0}\u{1680}\u{2000}\u{2001}\u{2002}\u{2003}\u{2004}\
                  \u{2005}\u{2006}\u{2007}\u{2008}\u{2009}\u{200a}\u{2028}\u{2029}\u{202f}\u{205f}\
                  \u{3000}";
    assert_eq!(spaces.chars().count(), 25);
    assert_eq!(hex::decode(&format!("4{}1", spaces)).unwrap(), "A");
    assert_eq!(bin::decode(&format!("0100{}0001", spaces)).unwrap(), "A");
    assert!(hex::is_valid_strict(&format!("{}41", spaces)));
    assert_eq!(hex::clean(&format!("4{}1", spaces)), "41");
}

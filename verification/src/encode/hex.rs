//! Hexadecimal text: two digits for every byte.

use vstd::prelude::*;
use vstd::string::StringSliceAdditionalSpecFns;
use vstd::utf8::*;
use crate::types::error::Error;
use crate::types::text::{is_white_space, string_from_utf8, text_of_bytes};

verus! {

/// Clears the bit that tells a lowercase ASCII letter from its capital.
pub const TO_UPPER_MASK: u8 = 0b11011111;

/// Sets the bit that tells a lowercase ASCII letter from its capital.
pub const TO_LOWER_MASK: u8 = 0b00100000;

/// `0`-`9`, `a`-`f` or `A`-`F`.
pub open spec fn is_hex_digit(c: char) -> bool {
    ||| '0' <= c <= '9'
    ||| 'a' <= c <= 'f'
    ||| 'A' <= c <= 'F'
}

/// The value of a hex digit, whatever its case.
pub open spec fn digit_value(c: char) -> int {
    if '0' <= c <= '9' {
        c as int - 48
    } else if 'a' <= c <= 'f' {
        c as int - 87
    } else {
        c as int - 55
    }
}

/// The uppercase digit for a value below sixteen.
pub open spec fn upper_digit(value: int) -> char {
    if value < 10 {
        (value + 48) as char
    } else {
        (value + 55) as char
    }
}

/// The hex digits of `text`, in order, everything else left out.
pub open spec fn hex_digits(text: Seq<char>) -> Seq<char> {
    text.filter(|c: char| is_hex_digit(c))
}

/// Every character of `text` is a hex digit or whitespace.
pub open spec fn only_digits_and_space(text: Seq<char>) -> bool {
    forall|i: int|
        0 <= i < text.len() ==> is_hex_digit(#[trigger] text[i]) || is_white_space(text[i])
}

/// The bytes that a run of digits spells: each pair is one byte, high
/// nibble first.
pub open spec fn bytes_of_digits(digits: Seq<char>) -> Seq<u8> {
    Seq::new(
        digits.len() / 2,
        |i: int| (16 * digit_value(digits[2 * i]) + digit_value(digits[2 * i + 1])) as u8,
    )
}

/// Length of the spaced rendering of `n` bytes.
pub open spec fn spaced_len(n: nat) -> nat {
    if n == 0 {
        0
    } else {
        (3 * n - 1) as nat
    }
}

/// Two uppercase digits for every byte, one space between bytes.
pub open spec fn encode_spec(bytes: Seq<u8>) -> Seq<char> {
    Seq::new(
        spaced_len(bytes.len()),
        |i: int|
            if i % 3 == 0 {
                upper_digit(bytes[i / 3] as int / 16)
            } else if i % 3 == 1 {
                upper_digit(bytes[i / 3] as int % 16)
            } else {
                ' '
            },
    )
}

/// The digits of `digits` as they stand, one space after every second one
/// but the last.
pub open spec fn spaced(digits: Seq<char>) -> Seq<char> {
    Seq::new(
        spaced_len(digits.len() / 2),
        |i: int|
            if i % 3 == 2 {
                ' '
            } else {
                digits[2 * (i / 3) + i % 3]
            },
    )
}

/// `a`-`f` become `A`-`F`; every other character stays.
pub open spec fn upper_char(c: char) -> char {
    if 'a' <= c <= 'f' {
        (c as int - 32) as char
    } else {
        c
    }
}

/// `A`-`F` become `a`-`f`; every other character stays.
pub open spec fn lower_char(c: char) -> char {
    if 'A' <= c <= 'F' {
        (c as int + 32) as char
    } else {
        c
    }
}

/// What hex text decodes to, or the message with which it is refused:
/// first for a character that is neither digit nor whitespace, then for an
/// odd number of digits, then for bytes that are no UTF-8.
pub open spec fn decode_spec(text: Seq<char>) -> Result<Seq<char>, Seq<char>> {
    if !only_digits_and_space(text) {
        Err("Non-hex character detected"@)
    } else if hex_digits(text).len() % 2 != 0 {
        Err("Hex string must have even length"@)
    } else {
        text_of_bytes(bytes_of_digits(hex_digits(text)))
    }
}

/// The loose check: not empty, and digits and whitespace only.
pub open spec fn is_valid_spec(text: Seq<char>) -> bool {
    text.len() > 0 && only_digits_and_space(text)
}

/// The strict check: digits and whitespace only, and a positive, even
/// number of digits.
pub open spec fn is_valid_strict_spec(text: Seq<char>) -> bool {
    &&& only_digits_and_space(text)
    &&& hex_digits(text).len() > 0
    &&& hex_digits(text).len() % 2 == 0
}

/// The digits of `text`, spaced, or the message with which it is refused.
pub open spec fn format_spec(text: Seq<char>) -> Result<Seq<char>, Seq<char>> {
    let digits = hex_digits(text);
    if digits.len() == 0 {
        Err("Empty hex string"@)
    } else if digits.len() % 2 != 0 {
        Err("Hexadecimal string length must be a multiple of 2"@)
    } else {
        Ok(spaced(digits))
    }
}

/// Appending a character appends it to the digits if it is one.
pub proof fn lemma_hex_digits_push(text: Seq<char>, c: char)
    ensures
        hex_digits(text.push(c)) == if is_hex_digit(c) {
            hex_digits(text).push(c)
        } else {
            hex_digits(text)
        },
        only_digits_and_space(text.push(c)) == (only_digits_and_space(text) && (is_hex_digit(c)
            || is_white_space(c))),
{
    reveal(Seq::filter);
    assert(text.push(c).drop_last() =~= text);
    if only_digits_and_space(text) && (is_hex_digit(c) || is_white_space(c)) {
        assert forall|i: int| 0 <= i < text.push(c).len() implies is_hex_digit(
            #[trigger] text.push(c)[i],
        ) || is_white_space(text.push(c)[i]) by {
            if i < text.len() {
                assert(text.push(c)[i] == text[i]);
            }
        }
    }
    if only_digits_and_space(text.push(c)) {
        assert(text.push(c)[text.len() as int] == c);
        assert forall|i: int| 0 <= i < text.len() implies is_hex_digit(#[trigger] text[i])
            || is_white_space(text[i]) by {
            assert(text.push(c)[i] == text[i]);
        }
    }
}

fn is_hex(c: char) -> (b: bool)
    ensures
        b == is_hex_digit(c),
{
    ('0' <= c && c <= '9') || ('a' <= c && c <= 'f') || ('A' <= c && c <= 'F')
}

fn hex_value(c: char) -> (value: u8)
    requires
        is_hex_digit(c),
    ensures
        value == digit_value(c),
        value < 16,
{
    if '0' <= c && c <= '9' {
        c as u8 - 48
    } else if 'a' <= c && c <= 'f' {
        c as u8 - 87
    } else {
        c as u8 - 55
    }
}

/// Returns the hex digits of the input, in order, and nothing else.
pub fn clean(input: &str) -> (cleaned: String)
    ensures
        cleaned@ == hex_digits(input@),
{
    let mut cleaned = String::new();
    for c in it: input.chars()
        invariant
            it.seq() == input@,
            cleaned@ == hex_digits(input@.take(it.index() as int)),
    {
        proof {
            let seen = input@.take(it.index() as int);
            lemma_hex_digits_push(seen, c);
            assert(input@.take(it.index() + 1) =~= seen.push(c));
        }
        if is_hex(c) {
            cleaned.push(c);
        }
    }
    assert(input@.take(input@.len() as int) =~= input@);
    cleaned
}

/// The digits of a text are hex digits, and no more than its characters.
pub proof fn lemma_hex_digits_are_digits(text: Seq<char>)
    ensures
        hex_digits(text).len() <= text.len(),
        forall|i: int|
            0 <= i < hex_digits(text).len() ==> is_hex_digit(#[trigger] hex_digits(text)[i]),
    decreases text.len(),
{
    if text.len() == 0 {
        reveal(Seq::filter);
    } else {
        lemma_hex_digits_are_digits(text.drop_last());
        lemma_hex_digits_push(text.drop_last(), text.last());
        assert(text.drop_last().push(text.last()) =~= text);
    }
}

proof fn lemma_nibbles(hi: u8, lo: u8, byte: u8)
    by (bit_vector)
    ensures
        hi < 16 && lo < 16 ==> (hi << 4) | lo == 16 * hi + lo,
        byte >> 4 == byte / 16,
        byte & 0x0F == byte % 16,
        byte >> 4 < 16,
        byte & 0x0F < 16,
        97 <= byte <= 102 ==> byte & 0b11011111 == byte - 32,
        65 <= byte <= 70 ==> byte | 0b00100000 == byte + 32,
{
}

/// The digits of a text, and whether it holds digits and whitespace only.
fn scan(text: &str) -> (r: (Vec<char>, bool))
    ensures
        r.0@ == hex_digits(text@),
        r.1 == only_digits_and_space(text@),
{
    let mut digits: Vec<char> = Vec::new();
    let mut clean = true;
    for c in it: text.chars()
        invariant
            it.seq() == text@,
            digits@ == hex_digits(text@.take(it.index() as int)),
            clean == only_digits_and_space(text@.take(it.index() as int)),
    {
        proof {
            let seen = text@.take(it.index() as int);
            lemma_hex_digits_push(seen, c);
            assert(text@.take(it.index() + 1) =~= seen.push(c));
        }
        if is_hex(c) {
            digits.push(c);
        } else if !c.is_whitespace() {
            clean = false;
        }
    }
    assert(text@.take(text@.len() as int) =~= text@);
    (digits, clean)
}

/// Decodes hex text to a string. Whitespace between digits is ignored; the
/// decoded bytes must be UTF-8.
pub fn decode(hex: &str) -> (r: Result<String, Error>)
    ensures
        match decode_spec(hex@) {
            Ok(text) => r is Ok && r->Ok_0@ == text,
            Err(reason) => r is Err && r->Err_0.is_invalid_syntax(reason),
        },
{
    let (digits, clean) = scan(hex);
    if !clean {
        return Err(Error::InvalidSyntax("Non-hex character detected".to_owned()));
    }
    let len = digits.len();
    if len % 2 != 0 {
        return Err(Error::InvalidSyntax("Hex string must have even length".to_owned()));
    }
    proof {
        lemma_hex_digits_are_digits(hex@);
    }
    let mut bytes: Vec<u8> = Vec::new();
    let mut i: usize = 0;
    while i < len / 2
        invariant
            len == digits@.len(),
            len % 2 == 0,
            i <= len / 2,
            forall|k: int| 0 <= k < len ==> is_hex_digit(#[trigger] digits@[k]),
            bytes@ == bytes_of_digits(digits@).take(i as int),
        decreases len / 2 - i,
    {
        let hi = hex_value(digits[2 * i]);
        let lo = hex_value(digits[2 * i + 1]);
        proof {
            lemma_nibbles(hi, lo, 0);
        }
        bytes.push((hi << 4) | lo);
        assert(bytes@ =~= bytes_of_digits(digits@).take(i + 1));
        i += 1;
    }
    assert(bytes@ =~= bytes_of_digits(digits@));
    string_from_utf8(bytes)
}

/// The uppercase hex digits, by value.
pub const HEX_CHARS_UPPER: [u8; 16] = [
    48, 49, 50, 51, 52, 53, 54, 55, 56, 57, 65, 66, 67, 68, 69, 70,
];

fn upper(value: u8) -> (c: char)
    requires
        value < 16,
    ensures
        c == upper_digit(value as int),
{
    HEX_CHARS_UPPER[value as usize] as char
}

/// Renders the UTF-8 bytes of a string as uppercase hex, one space between
/// bytes.
pub fn encode(text: &str) -> (hex: String)
    ensures
        hex@ == encode_spec(text.spec_bytes()),
        text.spec_bytes().len() == 0 ==> hex@.len() == 0,
        text.spec_bytes().len() > 0 ==> hex@.len() == 3 * text.spec_bytes().len() - 1,
{
    let bytes = text.as_bytes();
    let len = bytes.len();
    let mut hex = String::new();
    let mut i: usize = 0;
    while i < len
        invariant
            bytes@ == text.spec_bytes(),
            len == bytes@.len(),
            i <= len,
            hex@.len() == spaced_len(i as nat),
            forall|k: int| 0 <= k < hex@.len() ==> hex@[k] == encode_spec(bytes@)[k],
        decreases len - i,
    {
        let byte = bytes[i];
        proof {
            lemma_nibbles(0, 0, byte);
        }
        if i > 0 {
            hex.push(' ');
        }
        hex.push(upper(byte >> 4));
        hex.push(upper(byte & 0x0F));
        i += 1;
    }
    assert(hex@ =~= encode_spec(bytes@));
    hex
}

/// Whether the text is not empty and holds hex digits and whitespace only.
pub fn is_valid(hex: &str) -> (ok: bool)
    ensures
        ok == is_valid_spec(hex@),
{
    if hex.is_empty() {
        return false;
    }
    for c in it: hex.chars()
        invariant
            it.seq() == hex@,
            hex@.len() > 0,
            only_digits_and_space(hex@.take(it.index() as int)),
    {
        proof {
            let seen = hex@.take(it.index() as int);
            lemma_hex_digits_push(seen, c);
            assert(hex@.take(it.index() + 1) =~= seen.push(c));
        }
        if !(c.is_whitespace() || is_hex(c)) {
            assert(hex@[it.index() as int] == c);
            return false;
        }
    }
    assert(hex@.take(hex@.len() as int) =~= hex@);
    true
}

/// Whether the text holds hex digits and whitespace only, and a positive,
/// even number of digits.
pub fn is_valid_strict(hex: &str) -> (ok: bool)
    ensures
        ok == is_valid_strict_spec(hex@),
{
    let mut any = false;
    let mut even = true;
    for c in it: hex.chars()
        invariant
            it.seq() == hex@,
            only_digits_and_space(hex@.take(it.index() as int)),
            any == (hex_digits(hex@.take(it.index() as int)).len() > 0),
            even == (hex_digits(hex@.take(it.index() as int)).len() % 2 == 0),
    {
        proof {
            let seen = hex@.take(it.index() as int);
            lemma_hex_digits_push(seen, c);
            assert(hex@.take(it.index() + 1) =~= seen.push(c));
        }
        if is_hex(c) {
            any = true;
            even = !even;
        } else if !c.is_whitespace() {
            assert(hex@[it.index() as int] == c);
            return false;
        }
    }
    assert(hex@.take(hex@.len() as int) =~= hex@);
    any && even
}

/// Keeps the hex digits of the input and sets a space between every two
/// bytes. Fails where no digit is left, or an odd number of them.
pub fn format(hex: &str) -> (r: Result<String, Error>)
    ensures
        match format_spec(hex@) {
            Ok(text) => r is Ok && r->Ok_0@ == text,
            Err(reason) => r is Err && r->Err_0.is_invalid_syntax(reason),
        },
{
    let (digits, _) = scan(hex);
    let len = digits.len();
    if len == 0 {
        return Err(Error::InvalidSyntax("Empty hex string".to_owned()));
    }
    if len % 2 != 0 {
        return Err(
            Error::InvalidSyntax("Hexadecimal string length must be a multiple of 2".to_owned()),
        );
    }
    let mut result = String::new();
    let mut i: usize = 0;
    while i < len / 2
        invariant
            len == digits@.len(),
            len % 2 == 0,
            i <= len / 2,
            result@.len() == spaced_len(i as nat),
            forall|k: int| 0 <= k < result@.len() ==> result@[k] == spaced(digits@)[k],
        decreases len / 2 - i,
    {
        if i > 0 {
            result.push(' ');
        }
        result.push(digits[2 * i]);
        result.push(digits[2 * i + 1]);
        i += 1;
    }
    assert(result@ =~= spaced(digits@));
    Ok(result)
}

/// The text with `a`-`f` turned into `A`-`F`.
pub open spec fn to_uppercase_spec(text: Seq<char>) -> Seq<char> {
    Seq::new(text.len(), |i: int| upper_char(text[i]))
}

/// The text with `A`-`F` turned into `a`-`f`.
pub open spec fn to_lowercase_spec(text: Seq<char>) -> Seq<char> {
    Seq::new(text.len(), |i: int| lower_char(text[i]))
}

/// Turns the digits `a`-`f` into capitals and leaves every other character
/// as it is.
pub fn to_uppercase(hex: &str) -> (result: String)
    ensures
        result@ == to_uppercase_spec(hex@),
{
    let mut result = String::new();
    for c in it: hex.chars()
        invariant
            it.seq() == hex@,
            result@ == to_uppercase_spec(hex@.take(it.index() as int)),
    {
        let ghost seen = hex@.take(it.index() as int);
        if 'a' <= c && c <= 'f' {
            let b = c as u8;
            proof {
                lemma_nibbles(0, 0, b);
            }
            result.push((b & TO_UPPER_MASK) as char);
        } else {
            result.push(c);
        }
        assert(result@ =~= to_uppercase_spec(hex@.take(it.index() + 1)));
    }
    assert(hex@.take(hex@.len() as int) =~= hex@);
    result
}

/// Turns the digits `A`-`F` into small letters and leaves every other
/// character as it is.
pub fn to_lowercase(hex: &str) -> (result: String)
    ensures
        result@ == to_lowercase_spec(hex@),
{
    let mut result = String::new();
    for c in it: hex.chars()
        invariant
            it.seq() == hex@,
            result@ == to_lowercase_spec(hex@.take(it.index() as int)),
    {
        if 'A' <= c && c <= 'F' {
            let b = c as u8;
            proof {
                lemma_nibbles(0, 0, b);
            }
            result.push((b | TO_LOWER_MASK) as char);
        } else {
            result.push(c);
        }
        assert(result@ =~= to_lowercase_spec(hex@.take(it.index() + 1)));
    }
    assert(hex@.take(hex@.len() as int) =~= hex@);
    result
}

/// The digits of the rendering of `bytes`, without the spaces.
pub open spec fn digit_pairs(bytes: Seq<u8>) -> Seq<char> {
    Seq::new(
        2 * bytes.len(),
        |i: int|
            if i % 2 == 0 {
                upper_digit(bytes[i / 2] as int / 16)
            } else {
                upper_digit(bytes[i / 2] as int % 16)
            },
    )
}

/// The rendering of bytes holds digits and spaces only, and its digits are
/// the two digits of every byte in order.
pub proof fn lemma_encoding_scans(bytes: Seq<u8>)
    ensures
        only_digits_and_space(encode_spec(bytes)),
        hex_digits(encode_spec(bytes)) == digit_pairs(bytes),
    decreases bytes.len(),
{
    if bytes.len() == 0 {
        reveal(Seq::filter);
        assert(hex_digits(encode_spec(bytes)) =~= digit_pairs(bytes));
    } else {
        let head = bytes.drop_last();
        let last = bytes.last();
        let hi = upper_digit(last as int / 16);
        let lo = upper_digit(last as int % 16);
        lemma_encoding_scans(head);
        let joined = if head.len() == 0 {
            encode_spec(head)
        } else {
            encode_spec(head).push(' ')
        };
        lemma_hex_digits_push(encode_spec(head), ' ');
        lemma_hex_digits_push(joined, hi);
        lemma_hex_digits_push(joined.push(hi), lo);
        assert(encode_spec(bytes) =~= joined.push(hi).push(lo));
        assert(digit_pairs(bytes) =~= digit_pairs(head).push(hi).push(lo));
    }
}

/// Round trip: decoding the rendering of a string's UTF-8 bytes gives the
/// string back.
pub proof fn lemma_decode_inverts_encode(text: Seq<char>)
    ensures
        decode_spec(encode_spec(encode_utf8(text))) == Ok::<Seq<char>, Seq<char>>(text),
{
    let bytes = encode_utf8(text);
    lemma_encoding_scans(bytes);
    assert(bytes_of_digits(digit_pairs(bytes)) =~= bytes);
    encode_utf8_valid_utf8(text);
    encode_utf8_decode_utf8(text);
}

/// A text that the loose check rejects is not decoded. Left out is the
/// empty text: it decodes to the empty string, and the loose check rejects
/// it.
pub proof fn lemma_decoded_text_is_valid(text: Seq<char>)
    requires
        text.len() > 0,
    ensures
        !is_valid_spec(text) ==> decode_spec(text) is Err,
{
}

/// A text that the loose check rejects is not formatted. Left out are the
/// texts that are formatted although they hold a character that is
/// neither digit nor whitespace: formatting drops it, the loose check
/// rejects the text for it.
pub proof fn lemma_formatted_text_is_valid(text: Seq<char>)
    requires
        !(format_spec(text) is Ok && !only_digits_and_space(text)),
    ensures
        !is_valid_spec(text) ==> format_spec(text) is Err,
{
    lemma_hex_digits_are_digits(text);
}

/// The strict check implies the loose one, and a text that passes it is
/// formatted.
pub proof fn lemma_strict_implies_loose(text: Seq<char>)
    ensures
        is_valid_strict_spec(text) ==> is_valid_spec(text) && format_spec(text) is Ok,
{
    lemma_hex_digits_are_digits(text);
}

} // verus!

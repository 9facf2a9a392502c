//! Binary-digit text: eight digits for every byte, most significant first.

use vstd::prelude::*;
use vstd::string::StringSliceAdditionalSpecFns;
use vstd::utf8::*;
use crate::types::error::Error;
use crate::types::text::{is_white_space, string_from_utf8, text_of_bytes};

verus! {

/// `0` or `1`.
pub open spec fn is_bin_digit(c: char) -> bool {
    c == '0' || c == '1'
}

/// The value of a binary digit.
pub open spec fn bit_value(c: char) -> int {
    if c == '1' {
        1
    } else {
        0
    }
}

/// The weight of the digit at position `j` of a byte, position 0 being the
/// most significant.
pub open spec fn weight(j: int) -> int {
    if j == 0 {
        128
    } else if j == 1 {
        64
    } else if j == 2 {
        32
    } else if j == 3 {
        16
    } else if j == 4 {
        8
    } else if j == 5 {
        4
    } else if j == 6 {
        2
    } else {
        1
    }
}

/// The digit at position `j` of a byte, position 0 being the most
/// significant.
pub open spec fn bit_char(byte: u8, j: int) -> char {
    if (byte as int / weight(j)) % 2 == 1 {
        '1'
    } else {
        '0'
    }
}

/// The binary digits of `text`, in order, everything else left out.
pub open spec fn bin_digits(text: Seq<char>) -> Seq<char> {
    text.filter(|c: char| is_bin_digit(c))
}

/// Every character of `text` is a binary digit or whitespace.
pub open spec fn only_digits_and_space(text: Seq<char>) -> bool {
    forall|i: int|
        0 <= i < text.len() ==> is_bin_digit(#[trigger] text[i]) || is_white_space(text[i])
}

/// The number that the `n` digits from position `at` on spell, most
/// significant first.
pub open spec fn binary_value(digits: Seq<char>, at: int, n: nat) -> int
    decreases n,
{
    if n == 0 {
        0
    } else {
        2 * binary_value(digits, at, (n - 1) as nat) + bit_value(digits[at + n - 1])
    }
}

/// The bytes that a run of digits spells: every eight digits are one byte.
pub open spec fn bytes_of_digits(digits: Seq<char>) -> Seq<u8> {
    Seq::new(digits.len() / 8, |i: int| binary_value(digits, 8 * i, 8) as u8)
}

/// Length of the spaced rendering of `n` bytes.
pub open spec fn spaced_len(n: nat) -> nat {
    if n == 0 {
        0
    } else {
        (9 * n - 1) as nat
    }
}

/// Eight digits for every byte, one space between bytes.
pub open spec fn encode_spec(bytes: Seq<u8>) -> Seq<char> {
    Seq::new(
        spaced_len(bytes.len()),
        |i: int|
            if i % 9 == 8 {
                ' '
            } else {
                bit_char(bytes[i / 9], i % 9)
            },
    )
}

/// The digits of `digits` as they stand, one space after every eighth one
/// but the last.
pub open spec fn spaced(digits: Seq<char>) -> Seq<char> {
    Seq::new(
        spaced_len(digits.len() / 8),
        |i: int|
            if i % 9 == 8 {
                ' '
            } else {
                digits[8 * (i / 9) + i % 9]
            },
    )
}

/// What binary text decodes to, or the message with which it is refused:
/// first for a character that is neither digit nor whitespace, then for a
/// number of digits that is no multiple of eight, then for bytes that are
/// no UTF-8.
pub open spec fn decode_spec(text: Seq<char>) -> Result<Seq<char>, Seq<char>> {
    if !only_digits_and_space(text) {
        Err("Non-binary character detected"@)
    } else if bin_digits(text).len() % 8 != 0 {
        Err("Binary string must have length multiple of 8"@)
    } else {
        text_of_bytes(bytes_of_digits(bin_digits(text)))
    }
}

/// The loose check: not empty, and digits and whitespace only.
pub open spec fn is_valid_spec(text: Seq<char>) -> bool {
    text.len() > 0 && only_digits_and_space(text)
}

/// The strict check: digits and whitespace only, and a positive number of
/// digits that is a multiple of eight.
pub open spec fn is_valid_strict_spec(text: Seq<char>) -> bool {
    &&& only_digits_and_space(text)
    &&& bin_digits(text).len() > 0
    &&& bin_digits(text).len() % 8 == 0
}

/// The digits of `text`, spaced, or the message with which it is refused.
pub open spec fn format_spec(text: Seq<char>) -> Result<Seq<char>, Seq<char>> {
    let digits = bin_digits(text);
    if digits.len() == 0 {
        Err("Empty binary string"@)
    } else if digits.len() % 8 != 0 {
        Err("Binary string length must be multiple of 8"@)
    } else {
        Ok(spaced(digits))
    }
}

/// Appending a character appends it to the digits if it is one.
pub proof fn lemma_bin_digits_push(text: Seq<char>, c: char)
    ensures
        bin_digits(text.push(c)) == if is_bin_digit(c) {
            bin_digits(text).push(c)
        } else {
            bin_digits(text)
        },
        only_digits_and_space(text.push(c)) == (only_digits_and_space(text) && (is_bin_digit(c)
            || is_white_space(c))),
{
    reveal(Seq::filter);
    assert(text.push(c).drop_last() =~= text);
    if only_digits_and_space(text) && (is_bin_digit(c) || is_white_space(c)) {
        assert forall|i: int| 0 <= i < text.push(c).len() implies is_bin_digit(
            #[trigger] text.push(c)[i],
        ) || is_white_space(text.push(c)[i]) by {
            if i < text.len() {
                assert(text.push(c)[i] == text[i]);
            }
        }
    }
    if only_digits_and_space(text.push(c)) {
        assert(text.push(c)[text.len() as int] == c);
        assert forall|i: int| 0 <= i < text.len() implies is_bin_digit(#[trigger] text[i])
            || is_white_space(text[i]) by {
            assert(text.push(c)[i] == text[i]);
        }
    }
}

/// The digits of a text are binary digits, and no more than its characters.
pub proof fn lemma_bin_digits_are_digits(text: Seq<char>)
    ensures
        bin_digits(text).len() <= text.len(),
        forall|i: int|
            0 <= i < bin_digits(text).len() ==> is_bin_digit(#[trigger] bin_digits(text)[i]),
    decreases text.len(),
{
    if text.len() == 0 {
        reveal(Seq::filter);
    } else {
        lemma_bin_digits_are_digits(text.drop_last());
        lemma_bin_digits_push(text.drop_last(), text.last());
        assert(text.drop_last().push(text.last()) =~= text);
    }
}

/// Eight digits spell a number below 256.
proof fn lemma_binary_value_bound(digits: Seq<char>, at: int, n: nat)
    ensures
        0 <= binary_value(digits, at, n),
        n == 0 ==> binary_value(digits, at, n) < 1,
        n == 1 ==> binary_value(digits, at, n) < 2,
        n == 2 ==> binary_value(digits, at, n) < 4,
        n == 3 ==> binary_value(digits, at, n) < 8,
        n == 4 ==> binary_value(digits, at, n) < 16,
        n == 5 ==> binary_value(digits, at, n) < 32,
        n == 6 ==> binary_value(digits, at, n) < 64,
        n == 7 ==> binary_value(digits, at, n) < 128,
        n == 8 ==> binary_value(digits, at, n) < 256,
    decreases n,
{
    if n > 0 {
        lemma_binary_value_bound(digits, at, (n - 1) as nat);
    }
}

proof fn lemma_shifts(byte: u8, acc: u8, bit: u8)
    by (bit_vector)
    ensures
        acc < 128 && bit <= 1 ==> (acc << 1) | bit == 2 * acc + bit,
        (byte >> 7u8) & 1 == (byte / 128) % 2,
        (byte >> 6u8) & 1 == (byte / 64) % 2,
        (byte >> 5u8) & 1 == (byte / 32) % 2,
        (byte >> 4u8) & 1 == (byte / 16) % 2,
        (byte >> 3u8) & 1 == (byte / 8) % 2,
        (byte >> 2u8) & 1 == (byte / 4) % 2,
        (byte >> 1u8) & 1 == (byte / 2) % 2,
        (byte >> 0u8) & 1 == (byte / 1) % 2,
{
}

fn is_bin(c: char) -> (b: bool)
    ensures
        b == is_bin_digit(c),
{
    c == '0' || c == '1'
}

/// Returns the binary digits of the input, in order, and nothing else.
pub fn clean(input: &str) -> (cleaned: String)
    ensures
        cleaned@ == bin_digits(input@),
{
    let mut cleaned = String::new();
    for c in it: input.chars()
        invariant
            it.seq() == input@,
            cleaned@ == bin_digits(input@.take(it.index() as int)),
    {
        proof {
            let seen = input@.take(it.index() as int);
            lemma_bin_digits_push(seen, c);
            assert(input@.take(it.index() + 1) =~= seen.push(c));
        }
        if is_bin(c) {
            cleaned.push(c);
        }
    }
    assert(input@.take(input@.len() as int) =~= input@);
    cleaned
}

/// The digits of a text, and whether it holds digits and whitespace only.
fn scan(text: &str) -> (r: (Vec<char>, bool))
    ensures
        r.0@ == bin_digits(text@),
        r.1 == only_digits_and_space(text@),
{
    let mut digits: Vec<char> = Vec::new();
    let mut clean = true;
    for c in it: text.chars()
        invariant
            it.seq() == text@,
            digits@ == bin_digits(text@.take(it.index() as int)),
            clean == only_digits_and_space(text@.take(it.index() as int)),
    {
        proof {
            let seen = text@.take(it.index() as int);
            lemma_bin_digits_push(seen, c);
            assert(text@.take(it.index() + 1) =~= seen.push(c));
        }
        if is_bin(c) {
            digits.push(c);
        } else if !c.is_whitespace() {
            clean = false;
        }
    }
    assert(text@.take(text@.len() as int) =~= text@);
    (digits, clean)
}

/// Decodes binary text to a string. Whitespace between digits is ignored;
/// the decoded bytes must be UTF-8.
pub fn decode(bin: &str) -> (r: Result<String, Error>)
    ensures
        match decode_spec(bin@) {
            Ok(text) => r is Ok && r->Ok_0@ == text,
            Err(reason) => r is Err && r->Err_0.is_invalid_syntax(reason),
        },
{
    let (digits, clean) = scan(bin);
    if !clean {
        return Err(Error::InvalidSyntax("Non-binary character detected".to_owned()));
    }
    let len = digits.len();
    if len % 8 != 0 {
        return Err(Error::InvalidSyntax("Binary string must have length multiple of 8".to_owned()));
    }
    let mut bytes: Vec<u8> = Vec::new();
    let mut i: usize = 0;
    while i < len / 8
        invariant
            len == digits@.len(),
            len % 8 == 0,
            i <= len / 8,
            bytes@ == bytes_of_digits(digits@).take(i as int),
        decreases len / 8 - i,
    {
        let mut byte: u8 = 0;
        let mut j: usize = 0;
        while j < 8
            invariant
                len == digits@.len(),
                i < len / 8,
                j <= 8,
                byte == binary_value(digits@, 8 * i, j as nat),
            decreases 8 - j,
        {
            let bit: u8 = if digits[8 * i + j] == '1' { 1 } else { 0 };
            proof {
                lemma_binary_value_bound(digits@, 8 * i, j as nat);
                lemma_shifts(0, byte, bit);
            }
            byte = (byte << 1) | bit;
            j += 1;
        }
        bytes.push(byte);
        assert(bytes@ =~= bytes_of_digits(digits@).take(i + 1));
        i += 1;
    }
    assert(bytes@ =~= bytes_of_digits(digits@));
    string_from_utf8(bytes)
}

/// Renders the UTF-8 bytes of a string as binary digits, one space between
/// bytes.
pub fn encode(text: &str) -> (bin: String)
    ensures
        bin@ == encode_spec(text.spec_bytes()),
        text.spec_bytes().len() == 0 ==> bin@.len() == 0,
        text.spec_bytes().len() > 0 ==> bin@.len() == 9 * text.spec_bytes().len() - 1,
{
    let bytes = text.as_bytes();
    let len = bytes.len();
    let mut bin = String::new();
    let mut i: usize = 0;
    while i < len
        invariant
            bytes@ == text.spec_bytes(),
            len == bytes@.len(),
            i <= len,
            bin@.len() == spaced_len(i as nat),
            forall|k: int| 0 <= k < bin@.len() ==> bin@[k] == encode_spec(bytes@)[k],
        decreases len - i,
    {
        let byte = bytes[i];
        if i > 0 {
            bin.push(' ');
        }
        let ghost start = bin@.len();
        let mut j: u8 = 0;
        while j < 8
            invariant
                bytes@ == text.spec_bytes(),
                len == bytes@.len(),
                i < len,
                byte == bytes@[i as int],
                j <= 8,
                start == 9 * i,
                bin@.len() == start + j,
                forall|k: int| 0 <= k < bin@.len() ==> bin@[k] == encode_spec(bytes@)[k],
            decreases 8 - j,
        {
            proof {
                lemma_shifts(byte, 0, 0);
            }
            let shift: u8 = 7 - j;
            bin.push(if (byte >> shift) & 1 == 1 { '1' } else { '0' });
            j += 1;
        }
        i += 1;
    }
    assert(bin@ =~= encode_spec(bytes@));
    bin
}

/// Whether the text is not empty and holds binary digits and whitespace
/// only.
pub fn is_valid(bin: &str) -> (ok: bool)
    ensures
        ok == is_valid_spec(bin@),
{
    if bin.is_empty() {
        return false;
    }
    for c in it: bin.chars()
        invariant
            it.seq() == bin@,
            bin@.len() > 0,
            only_digits_and_space(bin@.take(it.index() as int)),
    {
        proof {
            let seen = bin@.take(it.index() as int);
            lemma_bin_digits_push(seen, c);
            assert(bin@.take(it.index() + 1) =~= seen.push(c));
        }
        if !(c.is_whitespace() || is_bin(c)) {
            assert(bin@[it.index() as int] == c);
            return false;
        }
    }
    assert(bin@.take(bin@.len() as int) =~= bin@);
    true
}

/// Whether the text holds binary digits and whitespace only, and a
/// positive number of digits that is a multiple of eight.
pub fn is_valid_strict(bin: &str) -> (ok: bool)
    ensures
        ok == is_valid_strict_spec(bin@),
{
    let mut any = false;
    let mut phase: u8 = 0;
    for c in it: bin.chars()
        invariant
            it.seq() == bin@,
            only_digits_and_space(bin@.take(it.index() as int)),
            any == (bin_digits(bin@.take(it.index() as int)).len() > 0),
            phase == bin_digits(bin@.take(it.index() as int)).len() % 8,
    {
        proof {
            let seen = bin@.take(it.index() as int);
            lemma_bin_digits_push(seen, c);
            assert(bin@.take(it.index() + 1) =~= seen.push(c));
        }
        if is_bin(c) {
            any = true;
            phase = if phase == 7 { 0 } else { phase + 1 };
        } else if !c.is_whitespace() {
            assert(bin@[it.index() as int] == c);
            return false;
        }
    }
    assert(bin@.take(bin@.len() as int) =~= bin@);
    any && phase == 0
}

/// Keeps the binary digits of the input and sets a space between every two
/// bytes. Fails where no digit is left, or a number of them that is no
/// multiple of eight.
pub fn format(bin: &str) -> (r: Result<String, Error>)
    ensures
        match format_spec(bin@) {
            Ok(text) => r is Ok && r->Ok_0@ == text,
            Err(reason) => r is Err && r->Err_0.is_invalid_syntax(reason),
        },
{
    let (digits, _) = scan(bin);
    let len = digits.len();
    if len == 0 {
        return Err(Error::InvalidSyntax("Empty binary string".to_owned()));
    }
    if len % 8 != 0 {
        return Err(Error::InvalidSyntax("Binary string length must be multiple of 8".to_owned()));
    }
    let mut result = String::new();
    let mut i: usize = 0;
    while i < len / 8
        invariant
            len == digits@.len(),
            len % 8 == 0,
            i <= len / 8,
            result@.len() == spaced_len(i as nat),
            forall|k: int| 0 <= k < result@.len() ==> result@[k] == spaced(digits@)[k],
        decreases len / 8 - i,
    {
        if i > 0 {
            result.push(' ');
        }
        let mut j: usize = 0;
        while j < 8
            invariant
                len == digits@.len(),
                len % 8 == 0,
                i < len / 8,
                j <= 8,
                result@.len() == 9 * i + j,
                forall|k: int| 0 <= k < result@.len() ==> result@[k] == spaced(digits@)[k],
            decreases 8 - j,
        {
            result.push(digits[8 * i + j]);
            j += 1;
        }
        i += 1;
    }
    assert(result@ =~= spaced(digits@));
    Ok(result)
}

/// The digits of the rendering of `bytes`, without the spaces.
pub open spec fn digit_octets(bytes: Seq<u8>) -> Seq<char> {
    Seq::new(8 * bytes.len(), |i: int| bit_char(bytes[i / 8], i % 8))
}

/// The rendering of bytes holds digits and spaces only, and its digits are
/// the eight digits of every byte in order.
pub proof fn lemma_encoding_scans(bytes: Seq<u8>)
    ensures
        only_digits_and_space(encode_spec(bytes)),
        bin_digits(encode_spec(bytes)) == digit_octets(bytes),
    decreases bytes.len(),
{
    if bytes.len() == 0 {
        reveal(Seq::filter);
        assert(bin_digits(encode_spec(bytes)) =~= digit_octets(bytes));
    } else {
        let head = bytes.drop_last();
        let last = bytes.last();
        lemma_encoding_scans(head);
        let joined = if head.len() == 0 {
            encode_spec(head)
        } else {
            encode_spec(head).push(' ')
        };
        lemma_bin_digits_push(encode_spec(head), ' ');
        let t1 = joined.push(bit_char(last, 0));
        let t2 = t1.push(bit_char(last, 1));
        let t3 = t2.push(bit_char(last, 2));
        let t4 = t3.push(bit_char(last, 3));
        let t5 = t4.push(bit_char(last, 4));
        let t6 = t5.push(bit_char(last, 5));
        let t7 = t6.push(bit_char(last, 6));
        let t8 = t7.push(bit_char(last, 7));
        lemma_bin_digits_push(joined, bit_char(last, 0));
        lemma_bin_digits_push(t1, bit_char(last, 1));
        lemma_bin_digits_push(t2, bit_char(last, 2));
        lemma_bin_digits_push(t3, bit_char(last, 3));
        lemma_bin_digits_push(t4, bit_char(last, 4));
        lemma_bin_digits_push(t5, bit_char(last, 5));
        lemma_bin_digits_push(t6, bit_char(last, 6));
        lemma_bin_digits_push(t7, bit_char(last, 7));
        assert(encode_spec(bytes) =~= t8);
        assert(digit_octets(bytes) =~= digit_octets(head).push(bit_char(last, 0)).push(
            bit_char(last, 1),
        ).push(bit_char(last, 2)).push(bit_char(last, 3)).push(bit_char(last, 4)).push(
            bit_char(last, 5),
        ).push(bit_char(last, 6)).push(bit_char(last, 7)));
    }
}

/// The eight digits of a byte spell the byte.
proof fn lemma_octet_spells_byte(digits: Seq<char>, at: int, byte: u8)
    requires
        forall|j: int| 0 <= j < 8 ==> digits[at + j] == bit_char(byte, j),
    ensures
        binary_value(digits, at, 8) == byte,
{
    reveal_with_fuel(binary_value, 9);
    assert(digits[at + 0] == bit_char(byte, 0));
    assert(digits[at + 1] == bit_char(byte, 1));
    assert(digits[at + 2] == bit_char(byte, 2));
    assert(digits[at + 3] == bit_char(byte, 3));
    assert(digits[at + 4] == bit_char(byte, 4));
    assert(digits[at + 5] == bit_char(byte, 5));
    assert(digits[at + 6] == bit_char(byte, 6));
    assert(digits[at + 7] == bit_char(byte, 7));
}

/// Round trip: decoding the rendering of a string's UTF-8 bytes gives the
/// string back.
pub proof fn lemma_decode_inverts_encode(text: Seq<char>)
    ensures
        decode_spec(encode_spec(encode_utf8(text))) == Ok::<Seq<char>, Seq<char>>(text),
{
    let bytes = encode_utf8(text);
    lemma_encoding_scans(bytes);
    let digits = digit_octets(bytes);
    assert forall|i: int| 0 <= i < bytes.len() implies #[trigger] bytes_of_digits(digits)[i]
        == bytes[i] by {
        assert forall|j: int| 0 <= j < 8 implies digits[8 * i + j] == bit_char(bytes[i], j) by {}
        lemma_octet_spells_byte(digits, 8 * i, bytes[i]);
    }
    assert(bytes_of_digits(digits) =~= bytes);
    encode_utf8_valid_utf8(text);
    encode_utf8_decode_utf8(text);
}

/// A text that the loose check rejects is not decoded. Left out is the
/// empty text: it decodes to the empty string, and the loose check rejects
/// it.
pub proof fn lemma_decoded_text_is_valid(text: Seq<char>)
    requires
        text.len() > 0,
    ensures
        !is_valid_spec(text) ==> decode_spec(text) is Err,
{
}

/// A text that the loose check rejects is not formatted. Left out are the
/// texts that are formatted although they hold a character that is
/// neither digit nor whitespace: formatting drops it, the loose check
/// rejects the text for it.
pub proof fn lemma_formatted_text_is_valid(text: Seq<char>)
    requires
        !(format_spec(text) is Ok && !only_digits_and_space(text)),
    ensures
        !is_valid_spec(text) ==> format_spec(text) is Err,
{
    lemma_bin_digits_are_digits(text);
}

/// The strict check implies the loose one, and a text that passes it is
/// formatted.
pub proof fn lemma_strict_implies_loose(text: Seq<char>)
    ensures
        is_valid_strict_spec(text) ==> is_valid_spec(text) && format_spec(text) is Ok,
{
    lemma_bin_digits_are_digits(text);
}

} // verus!

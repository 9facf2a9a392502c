//! Base64 with the standard alphabet and `=` padding.

use vstd::prelude::*;
use vstd::string::StringSliceAdditionalSpecFns;
use vstd::utf8::*;
use crate::types::error::Error;
use crate::types::text::{string_from_utf8, text_of_bytes};

verus! {

/// The padding symbol `=`.
pub const PAD: u8 = 61;

/// What the decode table holds for a byte outside the alphabet.
pub const NO_SYMBOL: u8 = 255;

/// The alphabet: `A`-`Z`, `a`-`z`, `0`-`9`, `+`, `/`.
pub const BASE64_CHARS: [u8; 64] = [
    65, 66, 67, 68, 69, 70, 71, 72, 73, 74, 75, 76, 77,
    78, 79, 80, 81, 82, 83, 84, 85, 86, 87, 88, 89, 90,
    97, 98, 99, 100, 101, 102, 103, 104, 105, 106, 107, 108, 109,
    110, 111, 112, 113, 114, 115, 116, 117, 118, 119, 120, 121, 122,
    48, 49, 50, 51, 52, 53, 54, 55, 56, 57, 43, 47,
];

/// For every byte, its index in the alphabet, or [`NO_SYMBOL`].
pub const DECODE_TABLE: [u8; 256] = [
    255, 255, 255, 255, 255, 255, 255, 255, 255, 255, 255, 255, 255, 255, 255, 255,
    255, 255, 255, 255, 255, 255, 255, 255, 255, 255, 255, 255, 255, 255, 255, 255,
    255, 255, 255, 255, 255, 255, 255, 255, 255, 255, 255, 62, 255, 255, 255, 63,
    52, 53, 54, 55, 56, 57, 58, 59, 60, 61, 255, 255, 255, 255, 255, 255,
    255, 0, 1, 2, 3, 4, 5, 6, 7, 8, 9, 10, 11, 12, 13, 14,
    15, 16, 17, 18, 19, 20, 21, 22, 23, 24, 25, 255, 255, 255, 255, 255,
    255, 26, 27, 28, 29, 30, 31, 32, 33, 34, 35, 36, 37, 38, 39, 40,
    41, 42, 43, 44, 45, 46, 47, 48, 49, 50, 51, 255, 255, 255, 255, 255,
    255, 255, 255, 255, 255, 255, 255, 255, 255, 255, 255, 255, 255, 255, 255, 255,
    255, 255, 255, 255, 255, 255, 255, 255, 255, 255, 255, 255, 255, 255, 255, 255,
    255, 255, 255, 255, 255, 255, 255, 255, 255, 255, 255, 255, 255, 255, 255, 255,
    255, 255, 255, 255, 255, 255, 255, 255, 255, 255, 255, 255, 255, 255, 255, 255,
    255, 255, 255, 255, 255, 255, 255, 255, 255, 255, 255, 255, 255, 255, 255, 255,
    255, 255, 255, 255, 255, 255, 255, 255, 255, 255, 255, 255, 255, 255, 255, 255,
    255, 255, 255, 255, 255, 255, 255, 255, 255, 255, 255, 255, 255, 255, 255, 255,
    255, 255, 255, 255, 255, 255, 255, 255, 255, 255, 255, 255, 255, 255, 255, 255,
];

/// The symbol that stands for a six-bit value.
pub open spec fn symbol_of(index: u8) -> u8 {
    if index < 26 {
        (index + 65) as u8
    } else if index < 52 {
        (index + 71) as u8
    } else if index < 62 {
        (index - 4) as u8
    } else if index == 62 {
        43
    } else {
        47
    }
}

/// The six-bit value that a byte stands for, or [`NO_SYMBOL`] for a byte
/// outside the alphabet.
pub open spec fn sextet_of(byte: u8) -> u8 {
    if 65 <= byte <= 90 {
        (byte - 65) as u8
    } else if 97 <= byte <= 122 {
        (byte - 71) as u8
    } else if 48 <= byte <= 57 {
        (byte + 4) as u8
    } else if byte == 43 {
        62
    } else if byte == 47 {
        63
    } else {
        NO_SYMBOL
    }
}

/// Length of the encoding of `n` bytes: four symbols for every started
/// group of three.
pub open spec fn encoded_len(n: nat) -> nat {
    4 * ((n + 2) / 3)
}

/// The symbol at position `i` of the encoding of `data`. A group that the
/// data does not fill is completed with zero bits, and with [`PAD`] where
/// no data bit falls into the symbol.
pub open spec fn encoded_byte(data: Seq<u8>, i: int) -> u8 {
    let at = 3 * (i / 4);
    let b0 = data[at];
    let b1 = if at + 1 < data.len() { data[at + 1] } else { 0u8 };
    let b2 = if at + 2 < data.len() { data[at + 2] } else { 0u8 };
    if i % 4 == 0 {
        symbol_of(b0 >> 2)
    } else if i % 4 == 1 {
        symbol_of(((b0 & 0x03) << 4) | (b1 >> 4))
    } else if i % 4 == 2 {
        if at + 1 < data.len() { symbol_of(((b1 & 0x0F) << 2) | (b2 >> 6)) } else { PAD }
    } else {
        if at + 2 < data.len() { symbol_of(b2 & 0x3F) } else { PAD }
    }
}

/// The Base64 text of `data`.
pub open spec fn encode_spec(data: Seq<u8>) -> Seq<char> {
    Seq::new(encoded_len(data.len()), |i: int| encoded_byte(data, i) as char)
}

proof fn lemma_sextets_in_range(b0: u8, b1: u8, b2: u8)
    by (bit_vector)
    ensures
        b0 >> 2 < 64,
        ((b0 & 0x03) << 4) | (b1 >> 4) < 64,
        ((b1 & 0x0F) << 2) | (b2 >> 6) < 64,
        b2 & 0x3F < 64,
        (b0 & 0x03) << 4 == ((b0 & 0x03) << 4) | (0u8 >> 4),
        (b1 & 0x0F) << 2 == ((b1 & 0x0F) << 2) | (0u8 >> 6),
{
}

fn symbol(index: u8) -> (c: char)
    requires
        index < 64,
    ensures
        c == symbol_of(index) as char,
{
    BASE64_CHARS[index as usize] as char
}

/// Encodes raw bytes to Base64 text.
pub fn encode_bytes(data: &[u8]) -> (text: String)
    ensures
        text@ == encode_spec(data@),
        text@.len() == 4 * ((data@.len() + 2) / 3),
{
    let len = data.len();
    let mut text = String::new();
    let mut i: usize = 0;
    while len - i >= 3
        invariant
            len == data@.len(),
            i <= len,
            i % 3 == 0,
            text@.len() == 4 * (i / 3),
            forall|k: int| 0 <= k < text@.len() ==> text@[k] == encoded_byte(data@, k) as char,
        decreases len - i,
    {
        let b0 = data[i];
        let b1 = data[i + 1];
        let b2 = data[i + 2];
        proof {
            lemma_sextets_in_range(b0, b1, b2);
        }
        text.push(symbol(b0 >> 2));
        text.push(symbol(((b0 & 0x03) << 4) | (b1 >> 4)));
        text.push(symbol(((b1 & 0x0F) << 2) | (b2 >> 6)));
        text.push(symbol(b2 & 0x3F));
        i += 3;
    }
    if len - i == 1 {
        let b0 = data[i];
        proof {
            lemma_sextets_in_range(b0, 0, 0);
        }
        text.push(symbol(b0 >> 2));
        text.push(symbol((b0 & 0x03) << 4));
        text.push(PAD as char);
        text.push(PAD as char);
    } else if len - i == 2 {
        let b0 = data[i];
        let b1 = data[i + 1];
        proof {
            lemma_sextets_in_range(b0, b1, 0);
        }
        text.push(symbol(b0 >> 2));
        text.push(symbol(((b0 & 0x03) << 4) | (b1 >> 4)));
        text.push(symbol((b1 & 0x0F) << 2));
        text.push(PAD as char);
    }
    assert(text@ =~= encode_spec(data@));
    text
}

/// Encodes the UTF-8 bytes of a string to Base64 text.
pub fn encode(data: &str) -> (text: String)
    ensures
        text@ == encode_spec(data.spec_bytes()),
        text@.len() == 4 * ((data.spec_bytes().len() + 2) / 3),
{
    encode_bytes(data.as_bytes())
}

/// Message for a text whose length is no multiple of four.
pub open spec fn length_error_text() -> Seq<char> {
    "Base64 input length must be multiple of 4"@
}

/// Message for a byte that is neither a symbol nor acceptable padding.
pub open spec fn bad_symbol_text(byte: u8) -> Seq<char> {
    "Invalid base64 character: '"@.push(byte as char).push('\'')
}

/// Message for a group whose third symbol is padding and whose fourth is not.
pub open spec fn padding_error_text() -> Seq<char> {
    "Invalid padding: expected '=' at position 4"@
}

/// What one group of four symbols decodes to: three bytes, or two before
/// one padding symbol, or one before two, or the message of the first rule
/// it breaks. The first two positions must hold symbols; the last two may
/// hold padding; padding in the third position needs padding in the fourth.
pub open spec fn decode_group(c0: u8, c1: u8, c2: u8, c3: u8) -> Result<Seq<u8>, Seq<char>> {
    let a0 = sextet_of(c0);
    let a1 = sextet_of(c1);
    let a2 = sextet_of(c2);
    let a3 = sextet_of(c3);
    if a0 == NO_SYMBOL {
        Err(bad_symbol_text(c0))
    } else if a1 == NO_SYMBOL {
        Err(bad_symbol_text(c1))
    } else if a2 == NO_SYMBOL && c2 != PAD {
        Err(bad_symbol_text(c2))
    } else if a3 == NO_SYMBOL && c3 != PAD {
        Err(bad_symbol_text(c3))
    } else if c2 == PAD {
        if c3 != PAD {
            Err(padding_error_text())
        } else {
            Ok(seq![(a0 << 2) | (a1 >> 4)])
        }
    } else if c3 == PAD {
        Ok(seq![(a0 << 2) | (a1 >> 4), (a1 << 4) | (a2 >> 2)])
    } else {
        Ok(seq![(a0 << 2) | (a1 >> 4), (a1 << 4) | (a2 >> 2), (a2 << 6) | a3])
    }
}

/// What the first `n` groups of `text` decode to: the bytes of all of them
/// in order, or the message of the first group that fails.
pub open spec fn decode_groups(text: Seq<u8>, n: nat) -> Result<Seq<u8>, Seq<char>>
    decreases n,
{
    if n == 0 {
        Ok(Seq::empty())
    } else {
        let at = 4 * (n - 1);
        match decode_groups(text, (n - 1) as nat) {
            Err(reason) => Err(reason),
            Ok(head) => match decode_group(text[at], text[at + 1], text[at + 2], text[at + 3]) {
                Err(reason) => Err(reason),
                Ok(tail) => Ok(head + tail),
            },
        }
    }
}

/// What a Base64 text decodes to, or the message with which it is refused.
pub open spec fn decode_bytes_spec(text: Seq<u8>) -> Result<Seq<u8>, Seq<char>> {
    if text.len() % 4 != 0 {
        Err(length_error_text())
    } else {
        decode_groups(text, text.len() / 4)
    }
}

/// Once a group has failed, the groups after it do not change the outcome.
proof fn lemma_first_failure_stays(text: Seq<u8>, k: nat, n: nat)
    requires
        k <= n,
        decode_groups(text, k) is Err,
    ensures
        decode_groups(text, n) == decode_groups(text, k),
    decreases n,
{
    if k < n {
        lemma_first_failure_stays(text, k, (n - 1) as nat);
    }
}

fn sextet(byte: u8) -> (value: u8)
    ensures
        value == sextet_of(byte),
{
    DECODE_TABLE[byte as usize]
}

fn bad_symbol(byte: u8) -> (e: Error)
    ensures
        e.is_invalid_syntax(bad_symbol_text(byte)),
{
    let mut text = "Invalid base64 character: '".to_owned();
    text.push(byte as char);
    text.push('\'');
    Error::InvalidSyntax(text)
}

/// Decodes Base64 text to raw bytes. The whole text is checked: nothing is
/// returned of a text that breaks a rule anywhere.
pub fn decode_bytes(s: &str) -> (r: Result<Vec<u8>, Error>)
    ensures
        match decode_bytes_spec(s.spec_bytes()) {
            Ok(bytes) => r is Ok && r->Ok_0@ == bytes,
            Err(reason) => r is Err && r->Err_0.is_invalid_syntax(reason),
        },
{
    let bytes = s.as_bytes();
    let len = bytes.len();
    if len % 4 != 0 {
        return Err(Error::InvalidSyntax("Base64 input length must be multiple of 4".to_owned()));
    }
    let num_blocks = len / 4;
    let mut result: Vec<u8> = Vec::new();
    let mut i: usize = 0;
    while i < num_blocks
        invariant
            bytes@ == s.spec_bytes(),
            len == bytes@.len(),
            num_blocks == len / 4,
            len % 4 == 0,
            i <= num_blocks,
            decode_groups(bytes@, i as nat) == Ok::<Seq<u8>, Seq<char>>(result@),
        decreases num_blocks - i,
    {
        let start = i * 4;
        let c0 = bytes[start];
        let c1 = bytes[start + 1];
        let c2 = bytes[start + 2];
        let c3 = bytes[start + 3];
        let a0 = sextet(c0);
        let a1 = sextet(c1);
        let a2 = sextet(c2);
        let a3 = sextet(c3);
        proof {
            if decode_groups(bytes@, (i + 1) as nat) is Err {
                lemma_first_failure_stays(bytes@, (i + 1) as nat, num_blocks as nat);
            }
        }
        if a0 == NO_SYMBOL {
            return Err(bad_symbol(c0));
        }
        if a1 == NO_SYMBOL {
            return Err(bad_symbol(c1));
        }
        if a2 == NO_SYMBOL && c2 != PAD {
            return Err(bad_symbol(c2));
        }
        if a3 == NO_SYMBOL && c3 != PAD {
            return Err(bad_symbol(c3));
        }
        let ghost head = result@;
        if c2 == PAD {
            if c3 != PAD {
                return Err(
                    Error::InvalidSyntax("Invalid padding: expected '=' at position 4".to_owned()),
                );
            }
            result.push((a0 << 2) | (a1 >> 4));
        } else if c3 == PAD {
            result.push((a0 << 2) | (a1 >> 4));
            result.push((a1 << 4) | (a2 >> 2));
        } else {
            result.push((a0 << 2) | (a1 >> 4));
            result.push((a1 << 4) | (a2 >> 2));
            result.push((a2 << 6) | a3);
        }
        assert(result@ =~= head + decode_group(c0, c1, c2, c3)->Ok_0);
        i += 1;
    }
    Ok(result)
}

/// What a Base64 text decodes to as a string: the decoded bytes read as
/// UTF-8, or the message with which the text or the bytes are refused.
pub open spec fn decode_spec(text: Seq<u8>) -> Result<Seq<char>, Seq<char>> {
    match decode_bytes_spec(text) {
        Ok(bytes) => text_of_bytes(bytes),
        Err(reason) => Err(reason),
    }
}

/// Decodes Base64 text to a string; the decoded bytes must be UTF-8.
pub fn decode(s: &str) -> (r: Result<String, Error>)
    ensures
        match decode_spec(s.spec_bytes()) {
            Ok(text) => r is Ok && r->Ok_0@ == text,
            Err(reason) => r is Err && r->Err_0.is_invalid_syntax(reason),
        },
{
    match decode_bytes(s) {
        Ok(bytes) => string_from_utf8(bytes),
        Err(e) => Err(e),
    }
}

/// A byte that may stand in Base64 text: a letter, a digit, `+`, `/` or `=`.
pub open spec fn is_base64_byte(byte: u8) -> bool {
    ||| 65 <= byte <= 90
    ||| 97 <= byte <= 122
    ||| 48 <= byte <= 57
    ||| byte == 43
    ||| byte == 47
    ||| byte == PAD
}

/// The loose check: the length is a multiple of four, every byte may stand
/// in Base64 text, and `=` stands at the end only, as the last symbol or as
/// the last two.
pub open spec fn is_valid_spec(text: Seq<u8>) -> bool {
    &&& text.len() % 4 == 0
    &&& forall|i: int| 0 <= i < text.len() ==> is_base64_byte(#[trigger] text[i])
    &&& forall|i: int| 0 <= i < text.len() - 2 ==> #[trigger] text[i] != PAD
    &&& text.len() >= 2 && text[text.len() - 2] == PAD ==> text[text.len() - 1] == PAD
}

/// Checks the shape of Base64 text without decoding it.
pub fn is_valid(base64: &str) -> (ok: bool)
    ensures
        ok == is_valid_spec(base64.spec_bytes()),
{
    let bytes = base64.as_bytes();
    let len = bytes.len();
    if len % 4 != 0 {
        return false;
    }
    let mut i: usize = 0;
    while i < len
        invariant
            bytes@ == base64.spec_bytes(),
            len == bytes@.len(),
            i <= len,
            forall|k: int| 0 <= k < i ==> is_base64_byte(#[trigger] bytes@[k]),
            forall|k: int| 0 <= k < i && k < len - 2 ==> #[trigger] bytes@[k] != PAD,
            len >= 2 && i >= len - 1 && bytes@[len - 2] == PAD ==> bytes@[len - 1] == PAD,
        decreases len - i,
    {
        let b = bytes[i];
        let in_alphabet = (65 <= b && b <= 90) || (97 <= b && b <= 122) || (48 <= b && b <= 57)
            || b == 43 || b == 47;
        if !(in_alphabet || b == PAD) {
            return false;
        }
        if b == PAD {
            if len - i > 2 {
                return false;
            }
            if len - i == 2 && bytes[i + 1] != PAD {
                return false;
            }
        }
        i += 1;
    }
    true
}

proof fn lemma_symbols_invert(index: u8)
    requires
        index < 64,
    ensures
        sextet_of(symbol_of(index)) == index,
        symbol_of(index) != PAD,
        symbol_of(index) < 128,
{
}

proof fn lemma_bits_regroup(b0: u8, b1: u8, b2: u8)
    by (bit_vector)
    ensures
        ((b0 >> 2) << 2) | ((((b0 & 0x03) << 4) | (b1 >> 4)) >> 4) == b0,
        ((((b0 & 0x03) << 4) | (b1 >> 4)) << 4) | ((((b1 & 0x0F) << 2) | (b2 >> 6)) >> 2) == b1,
        ((((b1 & 0x0F) << 2) | (b2 >> 6)) << 6) | (b2 & 0x3F) == b2,
{
}

/// The bytes of the encoding, one per symbol.
pub open spec fn encoded_bytes(data: Seq<u8>) -> Seq<u8> {
    Seq::new(encoded_len(data.len()), |i: int| encoded_byte(data, i))
}

/// Every symbol of an encoding is ASCII, so the encoding's UTF-8 bytes are
/// its symbols.
pub proof fn lemma_encoding_is_ascii(data: Seq<u8>)
    ensures
        is_ascii_chars(encode_spec(data)),
        encode_utf8(encode_spec(data)) == encoded_bytes(data),
        forall|i: int|
            0 <= i < encoded_len(data.len()) ==> is_base64_byte(#[trigger] encoded_bytes(data)[i]),
{
    let chars = encode_spec(data);
    assert forall|i: int| 0 <= i < chars.len() implies 0 <= (#[trigger] chars[i]) as nat <= 127
        && chars[i] as u8 == encoded_byte(data, i) && is_base64_byte(encoded_byte(data, i)) by {
        let at = 3 * (i / 4);
        let b0 = data[at];
        let b1 = if at + 1 < data.len() { data[at + 1] } else { 0u8 };
        let b2 = if at + 2 < data.len() { data[at + 2] } else { 0u8 };
        lemma_sextets_in_range(b0, b1, b2);
        lemma_symbols_invert(b0 >> 2);
        lemma_symbols_invert(((b0 & 0x03) << 4) | (b1 >> 4));
        lemma_symbols_invert(((b1 & 0x0F) << 2) | (b2 >> 6));
        lemma_symbols_invert(b2 & 0x3F);
    }
    is_ascii_chars_encode_utf8(chars);
    assert(encode_utf8(chars) =~= encoded_bytes(data));
}

/// Three bytes, cut into four symbols, decode to the three bytes.
proof fn lemma_full_group_decodes(b0: u8, b1: u8, b2: u8)
    ensures
        decode_group(
            symbol_of(b0 >> 2),
            symbol_of(((b0 & 0x03) << 4) | (b1 >> 4)),
            symbol_of(((b1 & 0x0F) << 2) | (b2 >> 6)),
            symbol_of(b2 & 0x3F),
        ) == Ok::<Seq<u8>, Seq<char>>(seq![b0, b1, b2]),
{
    lemma_sextets_in_range(b0, b1, b2);
    lemma_symbols_invert(b0 >> 2);
    lemma_symbols_invert(((b0 & 0x03) << 4) | (b1 >> 4));
    lemma_symbols_invert(((b1 & 0x0F) << 2) | (b2 >> 6));
    lemma_symbols_invert(b2 & 0x3F);
    lemma_bits_regroup(b0, b1, b2);
}

/// A last group of one or two bytes, padded, decodes to those bytes.
proof fn lemma_short_group_decodes(b0: u8, b1: u8)
    ensures
        decode_group(
            symbol_of(b0 >> 2),
            symbol_of(((b0 & 0x03) << 4) | (0u8 >> 4)),
            PAD,
            PAD,
        ) == Ok::<Seq<u8>, Seq<char>>(seq![b0]),
        decode_group(
            symbol_of(b0 >> 2),
            symbol_of(((b0 & 0x03) << 4) | (b1 >> 4)),
            symbol_of(((b1 & 0x0F) << 2) | (0u8 >> 6)),
            PAD,
        ) == Ok::<Seq<u8>, Seq<char>>(seq![b0, b1]),
{
    lemma_sextets_in_range(b0, 0, 0);
    lemma_sextets_in_range(b0, b1, 0);
    lemma_symbols_invert(b0 >> 2);
    lemma_symbols_invert(((b0 & 0x03) << 4) | (0u8 >> 4));
    lemma_symbols_invert(((b0 & 0x03) << 4) | (b1 >> 4));
    lemma_symbols_invert(((b1 & 0x0F) << 2) | (0u8 >> 6));
    lemma_bits_regroup(b0, 0, 0);
    lemma_bits_regroup(b0, b1, 0);
}

proof fn lemma_full_groups_decode(data: Seq<u8>, k: nat)
    requires
        3 * k <= data.len(),
    ensures
        decode_groups(encoded_bytes(data), k) == Ok::<Seq<u8>, Seq<char>>(data.take(3 * k as int)),
    decreases k,
{
    if k == 0 {
        assert(data.take(0) =~= Seq::<u8>::empty());
    } else {
        lemma_full_groups_decode(data, (k - 1) as nat);
        let text = encoded_bytes(data);
        let at = 3 * (k - 1);
        let b0 = data[at];
        let b1 = data[at + 1];
        let b2 = data[at + 2];
        lemma_full_group_decodes(b0, b1, b2);
        let g = 4 * (k - 1);
        assert(text[g] == symbol_of(b0 >> 2));
        assert(text[g + 1] == symbol_of(((b0 & 0x03) << 4) | (b1 >> 4)));
        assert(text[g + 2] == symbol_of(((b1 & 0x0F) << 2) | (b2 >> 6)));
        assert(text[g + 3] == symbol_of(b2 & 0x3F));
        assert(data.take(3 * k as int) =~= data.take(3 * (k - 1)) + seq![b0, b1, b2]);
    }
}

proof fn lemma_last_group_decodes(data: Seq<u8>)
    requires
        data.len() % 3 != 0,
    ensures
        decode_groups(encoded_bytes(data), (data.len() / 3 + 1) as nat) == Ok::<
            Seq<u8>,
            Seq<char>,
        >(data),
{
    let text = encoded_bytes(data);
    let full: int = (data.len() / 3) as int;
    lemma_full_groups_decode(data, full as nat);
    let at = 3 * full;
    let b0 = data[at];
    let g = 4 * full;
    assert(text[g] == symbol_of(b0 >> 2));
    assert(text[g + 3] == PAD);
    if data.len() % 3 == 1 {
        lemma_short_group_decodes(b0, 0);
        assert(text[g + 1] == symbol_of(((b0 & 0x03) << 4) | (0u8 >> 4)));
        assert(text[g + 2] == PAD);
        assert(data =~= data.take(3 * full) + seq![b0]);
    } else {
        let b1 = data[at + 1];
        lemma_short_group_decodes(b0, b1);
        assert(text[g + 1] == symbol_of(((b0 & 0x03) << 4) | (b1 >> 4)));
        assert(text[g + 2] == symbol_of(((b1 & 0x0F) << 2) | (0u8 >> 6)));
        assert(data =~= data.take(3 * full) + seq![b0, b1]);
    }
}

proof fn lemma_group_count(n: nat)
    ensures
        encoded_len(n) % 4 == 0,
        n % 3 == 0 ==> encoded_len(n) / 4 == n / 3,
        n % 3 != 0 ==> encoded_len(n) / 4 == n / 3 + 1,
{
}

proof fn lemma_symbols_decode(data: Seq<u8>)
    ensures
        decode_bytes_spec(encoded_bytes(data)) == Ok::<Seq<u8>, Seq<char>>(data),
{
    lemma_group_count(data.len());
    if data.len() % 3 == 0 {
        lemma_full_groups_decode(data, data.len() / 3);
        assert(data.take(3 * (data.len() / 3) as int) =~= data);
    } else {
        lemma_last_group_decodes(data);
    }
}

/// Round trip: decoding the encoding of any byte buffer gives the buffer
/// back.
pub proof fn lemma_decode_inverts_encode(data: Seq<u8>)
    ensures
        decode_bytes_spec(encode_utf8(encode_spec(data))) == Ok::<Seq<u8>, Seq<char>>(data),
{
    lemma_encoding_is_ascii(data);
    lemma_symbols_decode(data);
}

/// Round trip of text: decoding the encoding of a string's UTF-8 bytes
/// gives the string back.
pub proof fn lemma_decode_inverts_encode_text(text: Seq<char>)
    ensures
        decode_spec(encode_utf8(encode_spec(encode_utf8(text)))) == Ok::<Seq<char>, Seq<char>>(
            text,
        ),
{
    lemma_decode_inverts_encode(encode_utf8(text));
    encode_utf8_valid_utf8(text);
    encode_utf8_decode_utf8(text);
}

proof fn lemma_decoded_groups_hold_base64_bytes(text: Seq<u8>, n: nat)
    requires
        decode_groups(text, n) is Ok,
    ensures
        forall|i: int| 0 <= i < 4 * n ==> is_base64_byte(#[trigger] text[i]),
        n > 0 && text[4 * n - 2] == PAD ==> text[4 * n - 1] == PAD,
    decreases n,
{
    if n > 0 {
        lemma_decoded_groups_hold_base64_bytes(text, (n - 1) as nat);
    }
}

/// `=` stands somewhere before the last two positions.
pub open spec fn has_early_padding(text: Seq<u8>) -> bool {
    exists|i: int| 0 <= i < text.len() - 2 && #[trigger] text[i] == PAD
}

/// A text that the loose check rejects is not decoded. Left out are the
/// texts that decode although a group before the last is padded: the loose
/// check rejects them for their early `=`.
pub proof fn lemma_decoded_text_is_valid(text: Seq<u8>)
    requires
        !(decode_bytes_spec(text) is Ok && has_early_padding(text)),
    ensures
        !is_valid_spec(text) ==> decode_bytes_spec(text) is Err && decode_spec(text) is Err,
{
    if decode_bytes_spec(text) is Ok {
        lemma_decoded_groups_hold_base64_bytes(text, text.len() / 4);
    }
}

proof fn lemma_unpadded_groups_decode(text: Seq<u8>, n: nat)
    requires
        forall|i: int| 0 <= i < 4 * n ==> is_base64_byte(#[trigger] text[i]) && text[i] != PAD,
    ensures
        decode_groups(text, n) is Ok,
    decreases n,
{
    if n > 0 {
        lemma_unpadded_groups_decode(text, (n - 1) as nat);
        let at = 4 * (n - 1);
        assert(is_base64_byte(text[at]) && is_base64_byte(text[at + 1]) && is_base64_byte(
            text[at + 2],
        ) && is_base64_byte(text[at + 3]));
    }
}

/// A text that passes the loose check is decoded to bytes.
pub proof fn lemma_valid_text_decodes(text: Seq<u8>)
    requires
        is_valid_spec(text),
    ensures
        decode_bytes_spec(text) is Ok,
{
    let n = text.len() / 4;
    if n > 0 {
        lemma_unpadded_groups_decode(text, (n - 1) as nat);
        let at = 4 * (n - 1);
        assert(is_base64_byte(text[at]) && is_base64_byte(text[at + 1]) && is_base64_byte(
            text[at + 2],
        ) && is_base64_byte(text[at + 3]));
        assert(text[at] != PAD && text[at + 1] != PAD);
    }
}

} // verus!

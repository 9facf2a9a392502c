//! What the library assumes of std's `char` and `String`, and the small
//! helpers on characters and strings that its modules share.

use vstd::prelude::*;
use vstd::utf8::*;
use std::string::FromUtf8Error;
use vstd::string::StringExecFns;
use crate::types::error::Error;

verus! {

/// The code points that Unicode gives the `White_Space` property.
pub open spec fn is_white_space(c: char) -> bool {
    let v = c as u32;
    ||| 0x09 <= v <= 0x0D
    ||| v == 0x20
    ||| v == 0x85
    ||| v == 0xA0
    ||| v == 0x1680
    ||| 0x2000 <= v <= 0x200A
    ||| v == 0x2028
    ||| v == 0x2029
    ||| v == 0x202F
    ||| v == 0x205F
    ||| v == 0x3000
}

/// Assumed of `char::is_whitespace`: it answers whether the character has
/// Unicode's `White_Space` property, which is the set [`is_white_space`]
/// lists.
pub assume_specification[ char::is_whitespace ](c: char) -> (b: bool)
    ensures
        b == is_white_space(c),
;

/// Assumed of `String::push`: the character is appended, the rest stays.
pub assume_specification[ String::push ](s: &mut String, c: char)
    ensures
        final(s)@ == old(s)@.push(c),
;

/// Declares std's error of a failed UTF-8 conversion.
#[verifier::external_type_specification]
#[verifier::external_body]
pub struct ExFromUtf8Error(FromUtf8Error);

/// The bytes whose conversion failed with this error
/// (`FromUtf8Error::as_bytes`).
pub uninterp spec fn rejected_bytes(e: FromUtf8Error) -> Seq<u8>;

/// The text by which std describes why these bytes are no UTF-8.
pub uninterp spec fn utf8_error_text(bytes: Seq<u8>) -> Seq<char>;

/// Assumed of `String::from_utf8`: it succeeds exactly on valid UTF-8 and
/// then holds the decoded characters; on failure the error keeps the bytes.
pub assume_specification[ String::from_utf8 ](bytes: Vec<u8>) -> (r: Result<String, FromUtf8Error>)
    ensures
        r is Ok <==> valid_utf8(bytes@),
        r is Ok ==> r->Ok_0@ == decode_utf8(bytes@),
        r is Err ==> rejected_bytes(r->Err_0) == bytes@,
;

/// The `Display` text of a failed UTF-8 conversion. Assumed: the text is
/// fixed by the bytes that were rejected.
#[verifier::external_body]
pub(crate) fn utf8_error_message(e: &FromUtf8Error) -> (text: String)
    ensures
        text@ == utf8_error_text(rejected_bytes(*e)),
{
    e.to_string()
}

/// The text that a byte buffer holds: its characters where it is valid
/// UTF-8, else the message with which it is refused.
pub open spec fn text_of_bytes(bytes: Seq<u8>) -> Result<Seq<char>, Seq<char>> {
    if valid_utf8(bytes) {
        Ok(decode_utf8(bytes))
    } else {
        Err("Invalid UTF-8: "@ + utf8_error_text(bytes))
    }
}

/// Turns a byte buffer into a string, or says why it is no UTF-8.
pub fn string_from_utf8(bytes: Vec<u8>) -> (r: Result<String, Error>)
    ensures
        match text_of_bytes(bytes@) {
            Ok(text) => r is Ok && r->Ok_0@ == text,
            Err(reason) => r is Err && r->Err_0.is_invalid_syntax(reason),
        },
{
    match String::from_utf8(bytes) {
        Ok(text) => Ok(text),
        Err(e) => {
            let detail = utf8_error_message(&e);
            let mut reason = "Invalid UTF-8: ".to_owned();
            reason.append(detail.as_str());
            Err(Error::InvalidSyntax(reason))
        },
    }
}

/// The characters of a string, one by one.
pub fn chars_of(text: &str) -> (chars: Vec<char>)
    ensures
        chars@ == text@,
{
    let mut chars: Vec<char> = Vec::new();
    for c in it: text.chars()
        invariant
            it.seq() == text@,
            chars@ == text@.take(it.index() as int),
    {
        chars.push(c);
        assert(chars@ =~= text@.take(it.index() + 1));
    }
    assert(text@.take(text@.len() as int) =~= text@);
    chars
}

/// Appends the characters `chars[from..to]` to `out`.
pub fn push_chars(out: &mut String, chars: &Vec<char>, from: usize, to: usize)
    requires
        from <= to <= chars@.len(),
    ensures
        final(out)@ == old(out)@ + chars@.subrange(from as int, to as int),
{
    let mut i: usize = from;
    while i < to
        invariant
            from <= i <= to <= chars@.len(),
            out@ == old(out)@ + chars@.subrange(from as int, i as int),
        decreases to - i,
    {
        out.push(chars[i]);
        assert(out@ =~= old(out)@ + chars@.subrange(from as int, i + 1));
        i += 1;
    }
}

/// `text` without the whitespace at its start.
pub open spec fn trim_start_spec(text: Seq<char>) -> Seq<char>
    decreases text.len(),
{
    if text.len() > 0 && is_white_space(text.first()) {
        trim_start_spec(text.drop_first())
    } else {
        text
    }
}

/// `text` without the whitespace at its end.
pub open spec fn trim_end_spec(text: Seq<char>) -> Seq<char>
    decreases text.len(),
{
    if text.len() > 0 && is_white_space(text.last()) {
        trim_end_spec(text.drop_last())
    } else {
        text
    }
}

/// `text` without the whitespace at its start and at its end.
pub open spec fn trim_spec(text: Seq<char>) -> Seq<char> {
    trim_end_spec(trim_start_spec(text))
}

/// The characters of `text` between the whitespace at its start and the
/// whitespace at its end.
pub fn trimmed_chars(text: &str) -> (chars: Vec<char>)
    ensures
        chars@ == trim_spec(text@),
{
    let all = chars_of(text);
    let len = all.len();
    let mut start: usize = 0;
    assert(all@.skip(0) =~= all@);
    while start < len && all[start].is_whitespace()
        invariant
            start <= len == all@.len(),
            trim_start_spec(all@) == trim_start_spec(all@.skip(start as int)),
        decreases len - start,
    {
        assert(all@.skip(start as int).drop_first() =~= all@.skip(start + 1));
        start += 1;
    }
    assert(start < len ==> all@.skip(start as int).first() == all@[start as int]);
    assert(all@.subrange(start as int, len as int) =~= all@.skip(start as int));
    let mut end: usize = len;
    while end > start && all[end - 1].is_whitespace()
        invariant
            start <= end <= len == all@.len(),
            trim_start_spec(all@) == all@.skip(start as int),
            trim_spec(all@) == trim_end_spec(all@.subrange(start as int, end as int)),
        decreases end - start,
    {
        assert(all@.subrange(start as int, end as int).drop_last() =~= all@.subrange(
            start as int,
            end - 1,
        ));
        end -= 1;
    }
    assert(end > start ==> all@.subrange(start as int, end as int).last() == all@[end - 1]);
    let mut chars: Vec<char> = Vec::new();
    let mut i: usize = start;
    while i < end
        invariant
            start <= i <= end <= len == all@.len(),
            chars@ == all@.subrange(start as int, i as int),
        decreases end - i,
    {
        chars.push(all[i]);
        assert(chars@ =~= all@.subrange(start as int, i + 1));
        i += 1;
    }
    chars
}

/// The string that holds the characters `chars`.
pub fn string_of(chars: &Vec<char>) -> (text: String)
    ensures
        text@ == chars@,
{
    let mut text = String::new();
    push_chars(&mut text, chars, 0, chars.len());
    assert(chars@.subrange(0, chars@.len() as int) =~= chars@);
    text
}

} // verus!

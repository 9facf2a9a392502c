//! Random values from the thread-local generator.

use vstd::prelude::*;
use rand::distr::uniform::Error as UniformError;
use rand::distr::uniform::SampleUniform;
use rand::distr::{Alphanumeric, Uniform};
use rand::rngs::ThreadRng;
use rand::Rng;
use std::ops::RangeInclusive;
use crate::types::error::Error;
use crate::types::text::chars_of;

verus! {

/// Declares `rand`'s handle to the thread-local generator.
#[verifier::external_type_specification]
#[verifier::external_body]
pub struct ExThreadRng(ThreadRng);

/// `rand::rng`: a handle to the thread-local generator.
#[verifier::external_body]
pub(crate) fn thread_rng() -> ThreadRng {
    rand::rng()
}

/// `Uniform::new_inclusive` and one `Rng::sample` from it: a value drawn
/// from `[low, high]` as the type's own sampler draws it, or the
/// sampler's refusal of the range. Nothing is assumed of either.
#[verifier::external_body]
pub(crate) fn sample_inclusive<T: SampleUniform>(rng: &mut ThreadRng, low: T, high: T) -> Result<
    T,
    UniformError,
> {
    match Uniform::new_inclusive(low, high) {
        Ok(distr) => Ok(rng.sample(distr)),
        Err(e) => Err(e),
    }
}

/// `Uniform::new(0, bound)` and one `Rng::sample` from it. Assumed, as
/// `rand`'s sampler for unsigned integers has it: the range is refused
/// exactly when it is empty, and a value drawn lies in it.
#[verifier::external_body]
pub(crate) fn sample_index(rng: &mut ThreadRng, bound: usize) -> (r: Result<usize, UniformError>)
    ensures
        r is Ok <==> bound > 0,
        r is Ok ==> r->Ok_0 < bound,
{
    match Uniform::new(0, bound) {
        Ok(distr) => Ok(rng.sample(distr)),
        Err(e) => Err(e),
    }
}

/// An ASCII letter or digit.
pub open spec fn is_alphanumeric(byte: u8) -> bool {
    ||| 48 <= byte <= 57
    ||| 65 <= byte <= 90
    ||| 97 <= byte <= 122
}

/// `Rng::sample(Alphanumeric)`. Assumed: the byte is an ASCII letter or
/// digit.
#[verifier::external_body]
pub(crate) fn sample_alphanumeric(rng: &mut ThreadRng) -> (byte: u8)
    ensures
        is_alphanumeric(byte),
{
    rng.sample(Alphanumeric)
}

/// `Rng::random` for a byte: any byte.
#[verifier::external_body]
pub(crate) fn sample_byte(rng: &mut ThreadRng) -> u8 {
    rng.random()
}

/// `rand::random` for a `bool`: either value.
#[verifier::external_body]
pub(crate) fn sample_bool() -> bool {
    rand::random()
}

/// `Rng::random_ratio`. It panics on a zero denominator and on a numerator
/// above the denominator. Assumed: a ratio of one is always `true`, a
/// ratio of zero always `false`.
#[verifier::external_body]
pub(crate) fn sample_ratio(rng: &mut ThreadRng, numerator: u32, denominator: u32) -> (hit: bool)
    requires
        denominator > 0,
        numerator <= denominator,
    ensures
        numerator == denominator ==> hit,
        numerator == 0 ==> !hit,
{
    rng.random_ratio(numerator, denominator)
}

/// Assumed of `RangeInclusive::start`: it returns the lower bound.
pub assume_specification<Idx>[ RangeInclusive::<Idx>::start ](r: &RangeInclusive<Idx>) -> (start:
    &Idx)
    ensures
        *start == r@.start,
;

/// Assumed of `RangeInclusive::end`: it returns the upper bound.
pub assume_specification<Idx>[ RangeInclusive::<Idx>::end ](r: &RangeInclusive<Idx>) -> (end: &Idx)
    ensures
        *end == r@.end,
;

/// What a draw comes to: the value that was drawn, or the sampler's
/// refusal of the range as an error of the library.
pub open spec fn outcome_spec<T>(drawn: Result<T, UniformError>) -> Result<T, Error> {
    match drawn {
        Ok(value) => Ok(value),
        Err(e) => Err(Error::RandomErrorWrapper(e)),
    }
}

/// Hands on what was drawn, and wraps the sampler's refusal of a range.
pub fn outcome<T>(drawn: Result<T, UniformError>) -> (r: Result<T, Error>)
    ensures
        r == outcome_spec(drawn),
{
    match drawn {
        Ok(value) => Ok(value),
        Err(e) => Err(Error::RandomErrorWrapper(e)),
    }
}

/// The two bounds of an inclusive range, the lower one first.
pub fn range_bounds<T: Copy>(range: &RangeInclusive<T>) -> (bounds: (T, T))
    ensures
        bounds == (range@.start, range@.end),
{
    (*range.start(), *range.end())
}

/// Generates a random value within the inclusive range `[min, max]`. It
/// fails where the type's sampler refuses the range, as those of the
/// integers refuse one whose lower bound is above the upper.
pub fn random<T>(min: T, max: T) -> (r: Result<T, Error>) where
    T: PartialOrd + Copy + SampleUniform,

    ensures
        r is Err ==> r->Err_0 is RandomErrorWrapper,
{
    let mut rng = thread_rng();
    outcome(sample_inclusive(&mut rng, min, max))
}

/// Generates a random boolean (50% chance).
pub fn random_bool() -> bool {
    sample_bool()
}

/// Message for a character set that holds no character.
pub open spec fn empty_charset_text() -> Seq<char> {
    "Provided charset is empty"@
}

/// `text` has `length` characters, each taken from `charset`, or each an
/// ASCII letter or digit where no character set is given.
pub open spec fn drawn_from(text: Seq<char>, length: nat, charset: Option<Seq<char>>) -> bool {
    &&& text.len() == length
    &&& forall|i: int|
        0 <= i < text.len() ==> match charset {
            Some(chars) => chars.contains(#[trigger] text[i]),
            None => text[i] as u32 <= 127 && is_alphanumeric(text[i] as u8),
        }
}

/// Generates a random string of `length` characters out of `charset`, or
/// out of the ASCII letters and digits where none is given. An empty
/// character set is refused.
pub fn random_string(length: usize, charset: Option<&str>) -> (r: Result<String, Error>)
    ensures
        match charset {
            Some(chars) if chars@.len() == 0 => r is Err && r->Err_0.is_invalid_syntax(
                empty_charset_text(),
            ),
            Some(chars) => r is Ok && drawn_from(r->Ok_0@, length as nat, Some(chars@)),
            None => r is Ok && drawn_from(r->Ok_0@, length as nat, None),
        },
{
    let mut rng = thread_rng();
    let mut text = String::new();
    match charset {
        Some(chars) => {
            if chars.is_empty() {
                return Err(Error::InvalidSyntax("Provided charset is empty".to_owned()));
            }
            let char_vec = chars_of(chars);
            let mut i: usize = 0;
            while i < length
                invariant
                    i <= length,
                    char_vec@ == chars@,
                    char_vec@.len() > 0,
                    drawn_from(text@, i as nat, Some(chars@)),
                decreases length - i,
            {
                match sample_index(&mut rng, char_vec.len()) {
                    Ok(idx) => {
                        text.push(char_vec[idx]);
                    },
                    Err(e) => {
                        return Err(Error::RandomErrorWrapper(e));
                    },
                }
                i += 1;
            }
        },
        None => {
            let mut i: usize = 0;
            while i < length
                invariant
                    i <= length,
                    drawn_from(text@, i as nat, None),
                decreases length - i,
            {
                let byte = sample_alphanumeric(&mut rng);
                text.push(byte as char);
                i += 1;
            }
        },
    }
    Ok(text)
}

/// Generates a vector of `length` random bytes.
pub fn random_bytes(length: usize) -> (r: Result<Vec<u8>, Error>)
    ensures
        r is Ok,
        r->Ok_0@.len() == length,
{
    let mut rng = thread_rng();
    let mut bytes: Vec<u8> = Vec::new();
    let mut i: usize = 0;
    while i < length
        invariant
            i <= length,
            bytes@.len() == i,
        decreases length - i,
    {
        bytes.push(sample_byte(&mut rng));
        i += 1;
    }
    Ok(bytes)
}

/// Generates a random value from an inclusive `range`. It fails where the
/// type's sampler refuses the range.
pub fn random_range<T>(range: RangeInclusive<T>) -> (r: Result<T, Error>) where
    T: Copy + SampleUniform,

    ensures
        r is Err ==> r->Err_0 is RandomErrorWrapper,
{
    let (start, end) = range_bounds(&range);
    let mut rng = thread_rng();
    outcome(sample_inclusive(&mut rng, start, end))
}

/// Returns `true` with a probability of `numerator / denominator`.
pub fn random_ratio(numerator: u32, denominator: u32) -> (r: Result<bool, Error>)
    requires
        denominator > 0,
        numerator <= denominator,
    ensures
        r is Ok,
        numerator == denominator ==> r->Ok_0,
        numerator == 0 ==> !r->Ok_0,
{
    let mut rng = thread_rng();
    Ok(sample_ratio(&mut rng, numerator, denominator))
}

} // verus!

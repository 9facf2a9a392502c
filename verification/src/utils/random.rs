//! Random values from the thread-local generator, with bounds given in
//! either order and results that are always a `Result`.

use vstd::prelude::*;
use vstd::std_specs::cmp::PartialOrdSpec;
use rand::distr::uniform::SampleUniform;
use std::cmp::Ordering;
use std::ops::RangeInclusive;
use crate::crypto::random::{
    drawn_from, empty_charset_text, outcome, sample_bool, sample_inclusive, sample_ratio,
    thread_rng,
};
use crate::types::error::Error;

verus! {

/// Message for bounds that cannot be compared.
pub open spec fn incomparable_text() -> Seq<char> {
    "Invalid range comparison: cannot compare given values"@
}

/// Message for a ratio with a zero denominator.
pub open spec fn zero_denominator_text() -> Seq<char> {
    "Denominator cannot be zero"@
}

/// Puts two bounds in ascending order. Bounds that cannot be compared are
/// refused.
pub fn order_bounds<T>(min: T, max: T) -> (r: Result<(T, T), Error>) where T: PartialOrd + Copy
    ensures
        r is Ok ==> r->Ok_0 == (min, max) || r->Ok_0 == (max, min),
        r is Err ==> r->Err_0.is_invalid_syntax(incomparable_text()),
        T::obeys_partial_cmp_spec() ==> match min.partial_cmp_spec(&max) {
            Some(Ordering::Greater) => r is Ok && r->Ok_0 == (max, min),
            Some(_) => r is Ok && r->Ok_0 == (min, max),
            None => r is Err,
        },
{
    match min.partial_cmp(&max) {
        Some(Ordering::Greater) => Ok((max, min)),
        Some(_) => Ok((min, max)),
        None => Err(
            Error::InvalidSyntax(
                "Invalid range comparison: cannot compare given values".to_owned(),
            ),
        ),
    }
}

/// Generates a random value between `min` and `max`, both included, in
/// whichever order they are given. It fails where the bounds cannot be
/// compared, and where the type's sampler refuses the range.
pub fn random<T>(min: T, max: T) -> (r: Result<T, Error>) where
    T: PartialOrd + Copy + SampleUniform,

    ensures
        r is Err ==> r->Err_0 is RandomErrorWrapper || r->Err_0.is_invalid_syntax(
            incomparable_text(),
        ),
        T::obeys_partial_cmp_spec() && min.partial_cmp_spec(&max) is None ==> r is Err
            && r->Err_0.is_invalid_syntax(incomparable_text()),
{
    let (low, high) = match order_bounds(min, max) {
        Ok(bounds) => bounds,
        Err(e) => {
            return Err(e);
        },
    };
    let mut rng = thread_rng();
    outcome(sample_inclusive(&mut rng, low, high))
}

/// Generates a random boolean (50% chance).
pub fn random_bool() -> (r: Result<bool, Error>)
    ensures
        r is Ok,
{
    Ok(sample_bool())
}

/// Generates a random string of `length` characters out of `charset`, or
/// out of the ASCII letters and digits where none is given. An empty
/// character set is refused.
pub fn random_string(length: usize, charset: Option<&str>) -> (r: Result<String, Error>)
    ensures
        match charset {
            Some(chars) if chars@.len() == 0 => r is Err && r->Err_0.is_invalid_syntax(
                empty_charset_text(),
            ),
            Some(chars) => r is Ok && drawn_from(r->Ok_0@, length as nat, Some(chars@)),
            None => r is Ok && drawn_from(r->Ok_0@, length as nat, None),
        },
{
    crate::crypto::random::random_string(length, charset)
}

/// Generates a vector of `length` random bytes.
pub fn random_bytes(length: usize) -> (r: Result<Vec<u8>, Error>)
    ensures
        r is Ok,
        r->Ok_0@.len() == length,
{
    crate::crypto::random::random_bytes(length)
}

/// Generates a random value from an inclusive `range`. It fails where the
/// type's sampler refuses the range.
pub fn random_range<T>(range: RangeInclusive<T>) -> (r: Result<T, Error>) where
    T: Copy + SampleUniform,

    ensures
        r is Err ==> r->Err_0 is RandomErrorWrapper,
{
    crate::crypto::random::random_range(range)
}

/// Returns `true` with a probability of `numerator / denominator`. A zero
/// denominator is refused.
pub fn random_ratio(numerator: u32, denominator: u32) -> (r: Result<bool, Error>)
    requires
        numerator <= denominator || denominator == 0,
    ensures
        denominator == 0 ==> r is Err && r->Err_0.is_invalid_syntax(zero_denominator_text()),
        denominator > 0 ==> r is Ok,
        denominator > 0 && numerator == denominator ==> r->Ok_0,
        denominator > 0 && numerator == 0 ==> !r->Ok_0,
{
    if denominator == 0 {
        return Err(Error::InvalidSyntax("Denominator cannot be zero".to_owned()));
    }
    let mut rng = thread_rng();
    Ok(sample_ratio(&mut rng, numerator, denominator))
}

} // verus!

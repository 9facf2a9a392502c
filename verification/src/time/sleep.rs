//! A span of time to sleep for, kept in whole nanoseconds.

use vstd::prelude::*;
use vstd::string::StringExecFns;
use std::num::TryFromIntError;
use std::time::Duration;
use crate::types::text::{push_chars, string_of, trim_spec, trimmed_chars};

verus! {

/// The whole span of a `Duration`, in nanoseconds (`Duration::as_nanos`).
pub uninterp spec fn duration_nanos(d: Duration) -> nat;

/// Assumed of `Duration::from_nanos`: the duration spans that many
/// nanoseconds.
pub assume_specification[ Duration::from_nanos ](nanos: u64) -> (d: Duration)
    ensures
        duration_nanos(d) == nanos,
;

/// Assumed of `Duration::as_nanos`: it returns the whole span in
/// nanoseconds.
pub assume_specification[ Duration::as_nanos ](d: &Duration) -> (nanos: u128)
    ensures
        nanos == duration_nanos(*d),
;

/// Nanoseconds in a millisecond.
pub const NANOS_PER_MILLI: u128 = 1_000_000;

/// Possible errors when a sleep time is read from a number or a string.
#[derive(Debug)]
pub enum SleepError {
    /// Invalid time string format.
    InvalidFormat(String),
    /// Time value out of range.
    OutOfRange(String),
    /// Negative time value.
    NegativeTime(String),
    /// Integer conversion error.
    IntConversion(TryFromIntError),
}

/// A sleep time with nanosecond precision.
#[derive(Debug, Clone, Copy, PartialEq, Eq, Structural)]
pub struct SleepTime {
    nanoseconds: u128,
}

impl SleepTime {
    /// The nanoseconds that this sleep time spans.
    pub closed spec fn nanos(self) -> nat {
        self.nanoseconds as nat
    }

    /// The sleep time that spans `nanos` nanoseconds.
    pub closed spec fn spanning(nanos: nat) -> SleepTime {
        SleepTime { nanoseconds: nanos as u128 }
    }

    /// A sleep time is fixed by the nanoseconds it spans.
    pub proof fn lemma_spanning(self)
        ensures
            self == Self::spanning(self.nanos()),
            self.nanos() <= u128::MAX,
    {
    }

    /// The sleep time that spans `nanos` nanoseconds spans them.
    pub proof fn lemma_spanning_nanos(nanos: nat)
        requires
            nanos <= u128::MAX,
        ensures
            Self::spanning(nanos).nanos() == nanos,
    {
    }

    /// Creates a sleep time from nanoseconds.
    pub fn new(nanoseconds: u128) -> (time: Self)
        ensures
            time.nanos() == nanoseconds,
    {
        Self { nanoseconds }
    }

    /// The nanoseconds that this sleep time spans.
    pub fn as_nanos(&self) -> (nanos: u128)
        ensures
            nanos == self.nanos(),
    {
        self.nanoseconds
    }

    /// Converts to a `Duration`. A duration built from nanoseconds holds 64
    /// bits of them: of a longer sleep time the low 64 bits are kept.
    pub fn to_duration(self) -> (d: Duration)
        ensures
            duration_nanos(d) == self.nanos() % 0x1_0000_0000_0000_0000,
    {
        let nanos = self.nanoseconds;
        let low: u64 = #[verifier::truncate]
        (nanos as u64);
        assert(low == nanos % 0x1_0000_0000_0000_0000) by (bit_vector)
            requires
                low == nanos as u64,
        ;
        Duration::from_nanos(low)
    }

    /// Creates a sleep time from milliseconds.
    pub fn from_millis(ms: u64) -> (time: Self)
        ensures
            time.nanos() == ms * 1_000_000,
    {
        assert(ms as u128 * 1_000_000 <= u128::MAX) by (nonlinear_arith)
            requires
                ms <= u64::MAX,
        ;
        Self { nanoseconds: ms as u128 * NANOS_PER_MILLI }
    }

    /// Creates a sleep time that spans what the duration spans.
    pub fn from_duration(d: Duration) -> (time: Self)
        ensures
            time.nanos() == duration_nanos(d),
    {
        Self { nanoseconds: d.as_nanos() }
    }
}

impl From<u64> for SleepTime {
    /// Converts milliseconds to a sleep time.
    fn from(ms: u64) -> (time: Self) {
        SleepTime::from_millis(ms)
    }
}

impl From<Duration> for SleepTime {
    /// Converts a `Duration` to a sleep time.
    fn from(d: Duration) -> (time: Self) {
        SleepTime::from_duration(d)
    }
}

impl vstd::std_specs::convert::FromSpecImpl<Duration> for SleepTime {
    open spec fn obeys_from_spec() -> bool {
        true
    }

    open spec fn from_spec(d: Duration) -> Self {
        SleepTime::spanning(duration_nanos(d))
    }
}

impl vstd::std_specs::convert::FromSpecImpl<u64> for SleepTime {
    open spec fn obeys_from_spec() -> bool {
        true
    }

    open spec fn from_spec(ms: u64) -> Self {
        SleepTime::spanning((ms * 1_000_000) as nat)
    }
}

/// The lowercase form of a text, as `str::to_lowercase` gives it by
/// Unicode's case mapping.
pub uninterp spec fn lowercase_of(text: Seq<char>) -> Seq<char>;

/// Assumed of `str::to_lowercase`: what it returns is fixed by the text.
pub assume_specification[ str::to_lowercase ](s: &str) -> (lower: String)
    ensures
        lower@ == lowercase_of(s@),
;

impl SleepError {
    /// `self` is `InvalidFormat` and carries exactly `reason`.
    pub open spec fn is_invalid_format(self, reason: Seq<char>) -> bool {
        self matches SleepError::InvalidFormat(text) && text@ == reason
    }
}

/// A character of which the amount of a sleep time is made: a digit, a
/// point or a sign.
pub open spec fn is_amount_char(c: char) -> bool {
    '0' <= c <= '9' || c == '.' || c == '-' || c == '+'
}

/// How many characters at the start of `text` belong to the amount.
pub open spec fn amount_len(text: Seq<char>) -> int
    decreases text.len(),
{
    if text.len() > 0 && is_amount_char(text.first()) {
        1 + amount_len(text.drop_first())
    } else {
        0
    }
}

/// The two parts of a sleep time written as text, such as `1.5 ms`.
pub struct Written {
    /// The amount, as it is written.
    pub amount: String,
    /// The unit, trimmed and in lowercase.
    pub unit: String,
}

/// The amount and the unit of a written sleep time: the text is trimmed,
/// the amount is the longest start made of digits, points and signs, and
/// the unit is the rest, trimmed and in lowercase. A text that holds
/// nothing but whitespace has neither.
pub open spec fn split_amount_spec(text: Seq<char>) -> Option<(Seq<char>, Seq<char>)> {
    let body = trim_spec(text);
    if body.len() == 0 {
        None
    } else {
        Some(
            (
                body.take(amount_len(body)),
                lowercase_of(trim_spec(body.skip(amount_len(body)))),
            ),
        )
    }
}

/// Cuts a written sleep time into its amount and its unit.
pub fn split_amount(s: &str) -> (r: Result<Written, SleepError>)
    ensures
        match split_amount_spec(s@) {
            Some((amount, unit)) => r is Ok && r->Ok_0.amount@ == amount && r->Ok_0.unit@ == unit,
            None => r is Err && r->Err_0.is_invalid_format("empty string"@),
        },
{
    let body = trimmed_chars(s);
    let len = body.len();
    if len == 0 {
        return Err(SleepError::InvalidFormat("empty string".to_owned()));
    }
    let mut cut: usize = 0;
    assert(body@.skip(0) =~= body@);
    while cut < len && (('0' <= body[cut] && body[cut] <= '9') || body[cut] == '.' || body[cut]
        == '-' || body[cut] == '+')
        invariant
            cut <= len == body@.len(),
            amount_len(body@) == cut + amount_len(body@.skip(cut as int)),
        decreases len - cut,
    {
        assert(body@.skip(cut as int).drop_first() =~= body@.skip(cut + 1));
        cut += 1;
    }
    assert(cut < len ==> body@.skip(cut as int).first() == body@[cut as int]);
    let mut amount = String::new();
    push_chars(&mut amount, &body, 0, cut);
    assert(amount@ =~= body@.take(cut as int));
    let mut rest = String::new();
    push_chars(&mut rest, &body, cut, len);
    assert(rest@ =~= body@.skip(cut as int));
    let unit_chars = trimmed_chars(rest.as_str());
    let unit = string_of(&unit_chars).as_str().to_lowercase();
    Ok(Written { amount, unit })
}

/// Nanoseconds in one of a unit: seconds where no unit is written, else
/// what `s`, `ms`, `us`, `ns`, `m`, `h` and their longer names say.
pub open spec fn unit_nanos_spec(unit: Seq<char>) -> Option<u64> {
    if unit == ""@ || unit == "s"@ || unit == "sec"@ || unit == "secs"@ {
        Some(1_000_000_000)
    } else if unit == "ms"@ || unit == "msec"@ {
        Some(1_000_000)
    } else if unit == "us"@ || unit == "usec"@ {
        Some(1_000)
    } else if unit == "ns"@ || unit == "nsec"@ {
        Some(1)
    } else if unit == "m"@ || unit == "min"@ || unit == "mins"@ {
        Some(60_000_000_000)
    } else if unit == "h"@ || unit == "hour"@ || unit == "hours"@ {
        Some(3_600_000_000_000)
    } else {
        None
    }
}

fn same_text(a: &str, b: &str) -> (same: bool)
    ensures
        same == (a@ == b@),
{
    a.to_owned() == b.to_owned()
}

/// Message for a unit that is not known.
pub open spec fn unknown_unit_text(unit: Seq<char>) -> Seq<char> {
    "unknown unit: '"@ + unit + "'"@
}

/// The nanoseconds in one of a unit, or the error that names the unit.
pub fn unit_nanos(unit: &str) -> (r: Result<u64, SleepError>)
    ensures
        match unit_nanos_spec(unit@) {
            Some(nanos) => r == Ok::<u64, SleepError>(nanos),
            None => r is Err && r->Err_0.is_invalid_format(unknown_unit_text(unit@)),
        },
{
    if same_text(unit, "") || same_text(unit, "s") || same_text(unit, "sec") || same_text(
        unit,
        "secs",
    ) {
        Ok(1_000_000_000)
    } else if same_text(unit, "ms") || same_text(unit, "msec") {
        Ok(1_000_000)
    } else if same_text(unit, "us") || same_text(unit, "usec") {
        Ok(1_000)
    } else if same_text(unit, "ns") || same_text(unit, "nsec") {
        Ok(1)
    } else if same_text(unit, "m") || same_text(unit, "min") || same_text(unit, "mins") {
        Ok(60_000_000_000)
    } else if same_text(unit, "h") || same_text(unit, "hour") || same_text(unit, "hours") {
        Ok(3_600_000_000_000)
    } else {
        let mut reason = "unknown unit: '".to_owned();
        reason.append(unit);
        reason.append("'");
        Err(SleepError::InvalidFormat(reason))
    }
}

} // verus!

//! The error type shared by every fallible function of the library.

use vstd::prelude::*;
use rand::distr::uniform::Error as UniformError;

verus! {

/// Declares the error of `rand`'s uniform distributions, so that it can be
/// carried inside [`Error`]. Nothing is known of a value of it.
#[verifier::external_type_specification]
#[verifier::external_body]
pub struct ExUniformError(UniformError);

/// Declares std's I/O error, so that it can be carried inside [`Error`].
/// Nothing is known of a value of it.
#[verifier::external_type_specification]
#[verifier::external_body]
pub struct ExIoError(std::io::Error);

/// Main error type of the library.
#[derive(Debug)]
pub enum Error {
    /// Malformed input; the string names the rule that was broken.
    InvalidSyntax(String),
    /// A value did not have the expected shape.
    ValidationError {
        /// What was expected.
        expected: String,
        /// What was found.
        actual: String,
        /// Additional context.
        context: Option<String>,
    },
    /// A random distribution could not be built.
    RandomErrorWrapper(UniformError),
    /// An I/O operation failed.
    IoErrorWrapper(std::io::Error),
    /// Random generation failed, with a description.
    RandomError(String),
    /// An I/O operation failed, with a description.
    IoError(String),
}

impl Error {
    /// `self` is `InvalidSyntax` and carries exactly `reason`.
    pub open spec fn is_invalid_syntax(self, reason: Seq<char>) -> bool {
        self matches Error::InvalidSyntax(text) && text@ == reason
    }

    /// `self` is `ValidationError` and carries exactly these texts.
    pub open spec fn is_validation_error(
        self,
        expected: Seq<char>,
        actual: Seq<char>,
        context: Seq<char>,
    ) -> bool {
        self matches Error::ValidationError { expected: e, actual: a, context: Some(c) } && e@
            == expected && a@ == actual && c@ == context
    }

    /// `self` is `IoError` and carries exactly `reason`.
    pub open spec fn is_io_error(self, reason: Seq<char>) -> bool {
        self matches Error::IoError(text) && text@ == reason
    }
}

} // verus!

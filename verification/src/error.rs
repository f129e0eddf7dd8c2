//! Public error types.

use vstd::prelude::*;

verus! {

/// A value is correct, but the representation asked for cannot hold it exactly.
#[derive(Debug, Clone, Copy, PartialEq, Eq)]
pub struct RangeError(pub &'static str);

impl RangeError {
    /// What could not be done, in words.
    pub fn to_string(&self) -> (message: String)
        ensures
            message@ == self.0@,
    {
        self.0.to_owned()
    }
}

/// Why a sequence of characters could not be converted to a number.
#[derive(Debug, Clone, Copy, PartialEq, Eq, Structural)]
pub enum NumberError {
    /// A character is not a digit of the number system in use.
    InvalidDigit,
    /// The digits are fine, but the number is larger than can be held.
    TooLarge,
    /// The digits are fine, but the number has more decimal places than can be held.
    TooPrecise,
}

/// Kinds of errors that may happen during color parsing.
#[derive(Debug, Clone, Copy, PartialEq, Eq)]
pub enum ParsingError {
    /// The string does not have the shape of the notation.
    InvalidSyntax(&'static str),
    /// The string is valid CSS, but of a kind that is not supported.
    UnsupportedValue(&'static str),
    /// The string has the shape of the notation, but one of its numbers cannot be converted.
    NumberConversionFailed(NumberError),
}

/// What a [`ParsingError`] is about, for callers that handle errors by kind.
#[derive(Debug, Clone, Copy, PartialEq, Eq)]
pub enum ParsingErrorKind {
    InvalidSyntax { details: &'static str },
    UnsupportedValue { details: &'static str },
    ConversionFailed { cause: NumberError },
}

impl NumberError {
    /// The cause, in words.
    pub open spec fn spec_as_str(&self) -> &'static str {
        match self {
            NumberError::InvalidDigit => "invalid digit found in string",
            NumberError::TooLarge => "number too large to be held",
            NumberError::TooPrecise => "number has too many decimal places to be held",
        }
    }

    /// The cause, in words.
    #[verifier::when_used_as_spec(spec_as_str)]
    pub fn as_str(&self) -> (message: &'static str)
        ensures
            message == self.spec_as_str(),
    {
        match self {
            NumberError::InvalidDigit => "invalid digit found in string",
            NumberError::TooLarge => "number too large to be held",
            NumberError::TooPrecise => "number has too many decimal places to be held",
        }
    }
}

impl ParsingErrorKind {
    /// The kind of error, in words: what is known of the syntax or of the value, or
    /// why a number could not be converted.
    pub open spec fn spec_as_str(&self) -> &'static str {
        match *self {
            ParsingErrorKind::InvalidSyntax { details } => details,
            ParsingErrorKind::UnsupportedValue { details } => details,
            ParsingErrorKind::ConversionFailed { cause } => cause.spec_as_str(),
        }
    }

    /// The kind of error, in words, as a string of its own.
    pub fn to_string(&self) -> (message: String)
        ensures
            message@ == self.spec_as_str()@,
    {
        match *self {
            ParsingErrorKind::InvalidSyntax { details } => details.to_owned(),
            ParsingErrorKind::UnsupportedValue { details } => details.to_owned(),
            ParsingErrorKind::ConversionFailed { cause } => cause.as_str().to_owned(),
        }
    }
}

impl ParsingError {
    /// The error, in words.
    pub open spec fn spec_message(&self) -> &'static str {
        match *self {
            ParsingError::InvalidSyntax(details) => details,
            ParsingError::UnsupportedValue(details) => details,
            ParsingError::NumberConversionFailed(_) => "Number conversion failed",
        }
    }

    /// The error, in words.
    #[verifier::when_used_as_spec(spec_message)]
    pub fn message(&self) -> (message: &'static str)
        ensures
            message == self.spec_message(),
    {
        match *self {
            ParsingError::InvalidSyntax(details) => details,
            ParsingError::UnsupportedValue(details) => details,
            ParsingError::NumberConversionFailed(_) => "Number conversion failed",
        }
    }

    /// The error, in words, as a string of its own.
    pub fn to_string(&self) -> (message: String)
        ensures
            message@ == self.spec_message()@,
    {
        self.message().to_owned()
    }

    /// The cause of the error, where the error has one: why a number could not be
    /// converted.
    pub fn source(&self) -> (cause: Option<NumberError>)
        ensures
            cause == match *self {
                ParsingError::NumberConversionFailed(c) => Some(c),
                _ => None,
            },
    {
        match *self {
            ParsingError::InvalidSyntax(_) => None,
            ParsingError::UnsupportedValue(_) => None,
            ParsingError::NumberConversionFailed(cause) => Some(cause),
        }
    }

    /// The kind of this error, with what is known of its cause.
    pub open spec fn spec_kind(&self) -> ParsingErrorKind {
        match *self {
            ParsingError::InvalidSyntax(details) => ParsingErrorKind::InvalidSyntax { details },
            ParsingError::UnsupportedValue(details) => ParsingErrorKind::UnsupportedValue {
                details,
            },
            ParsingError::NumberConversionFailed(cause) => ParsingErrorKind::ConversionFailed {
                cause,
            },
        }
    }

    /// The kind of this error, with what is known of its cause.
    #[verifier::when_used_as_spec(spec_kind)]
    pub fn kind(&self) -> (kind: ParsingErrorKind)
        ensures
            kind == self.spec_kind(),
    {
        match *self {
            ParsingError::InvalidSyntax(details) => ParsingErrorKind::InvalidSyntax { details },
            ParsingError::UnsupportedValue(details) => ParsingErrorKind::UnsupportedValue {
                details,
            },
            ParsingError::NumberConversionFailed(cause) => ParsingErrorKind::ConversionFailed {
                cause,
            },
        }
    }
}

} // verus!

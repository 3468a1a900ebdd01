//! The error taxonomy reported by strict decoding.

use vstd::prelude::*;
use vstd::string::StringExecFns;
use crate::digits::{dec_u32, push_dec_u32};

verus! {

/// Why an integer failed to parse from its text.
#[derive(Debug, Clone, Copy, PartialEq, Eq, Structural)]
pub enum IntErrorKind {
    /// The text was empty.
    Empty,
    /// The text held a character that is not a decimal digit
    /// (or a sign where none is allowed).
    InvalidDigit,
    /// The value exceeds the upper bound of the target type.
    PosOverflow,
    /// The value exceeds the lower bound of the target type.
    NegOverflow,
}

/// An error when parsing a SKU from a string.
#[derive(Debug, Clone, Copy)]
pub enum ParseError {
    /// An integer failed to parse.
    ParseInt {
        /// The attribute whose value was malformed.
        key: &'static str,
        /// Why the integer parse failed.
        error: IntErrorKind,
    },
    /// The SKU format is not valid. Must begin with a defindex and a quality
    /// e.g. "5021;6".
    InvalidFormat,
    /// An attribute value parsed as an integer but is not a known code.
    InvalidValue {
        /// The attribute whose value was rejected.
        key: &'static str,
        /// The rejected code.
        number: u32,
    },
}

/// The mathematical model of a [`ParseError`]: the key is carried as the
/// sequence of characters of the field name.
pub enum ParseErrorModel {
    ParseInt { key: Seq<char>, error: IntErrorKind },
    InvalidFormat,
    InvalidValue { key: Seq<char>, number: u32 },
}

impl View for ParseError {
    type V = ParseErrorModel;

    open spec fn view(&self) -> ParseErrorModel {
        match *self {
            ParseError::ParseInt { key, error } => ParseErrorModel::ParseInt {
                key: key@,
                error,
            },
            ParseError::InvalidFormat => ParseErrorModel::InvalidFormat,
            ParseError::InvalidValue { key, number } => ParseErrorModel::InvalidValue {
                key: key@,
                number,
            },
        }
    }
}

/// The human-readable description of an error.
pub open spec fn message_spec(e: ParseErrorModel) -> Seq<char> {
    match e {
        ParseErrorModel::ParseInt { key, error } => match error {
            IntErrorKind::Empty => "Value for "@ + key + " in SKU is empty."@,
            IntErrorKind::InvalidDigit => "Value for "@ + key + " in SKU contains invalid digit."@,
            IntErrorKind::PosOverflow => "Value for "@ + key
                + " in SKU overflows integer bounds."@,
            IntErrorKind::NegOverflow => "Value for "@ + key
                + " in SKU underflows integer bounds."@,
        },
        ParseErrorModel::InvalidFormat => "Invalid SKU format. Must begin with a defindex followed by a quality e.g. \"5021;6\""@,
        ParseErrorModel::InvalidValue { key, number } => "Unknown "@ + key + ": "@ + dec_u32(
            number as int,
        ),
    }
}

impl ParseError {
    /// Describes the error in words, naming the field it concerns.
    pub fn message(&self) -> (r: String)
        ensures
            r@ == message_spec(self@),
    {
        let mut s = String::new();
        match self {
            ParseError::ParseInt { key, error } => {
                s.append("Value for ");
                s.append(key);
                match error {
                    IntErrorKind::Empty => {
                        s.append(" in SKU is empty.");
                    },
                    IntErrorKind::InvalidDigit => {
                        s.append(" in SKU contains invalid digit.");
                    },
                    IntErrorKind::PosOverflow => {
                        s.append(" in SKU overflows integer bounds.");
                    },
                    IntErrorKind::NegOverflow => {
                        s.append(" in SKU underflows integer bounds.");
                    },
                }
            },
            ParseError::InvalidFormat => {
                s.append(
                    "Invalid SKU format. Must begin with a defindex followed by a quality e.g. \"5021;6\"",
                );
            },
            ParseError::InvalidValue { key, number } => {
                s.append("Unknown ");
                s.append(key);
                s.append(": ");
                push_dec_u32(&mut s, *number);
            },
        }
        proof {
            assert(s@ =~= message_spec(self@));
        }
        s
    }
}

} // verus!

//! Errors of the token-based reading of affix files and of the checks on a
//! personal word list.

use std::num::ParseIntError;
use vstd::prelude::*;

use crate::num::{decimal, decimal_string, parse_int_error_message, parse_int_error_text};
use crate::text::push_str;

verus! {

/// Errors that may arise while reading the tokens of an affix file.
#[derive(Debug, PartialEq, Eq)]
pub enum AffixError {
    NumParse(ParseIntError),
    WrongTokenType,
    NoConversionInput,
    NoConversionOutput,
    Syntax(String),
    TableCount { expected: String, received: String, missing: u16 },
    MissingIdentifier,
    BadCrossProduct,
    BadTokenType,
    BadEncodingType,
}

/// The message of an affix error.
pub open spec fn affix_error_message(e: AffixError) -> Seq<char> {
    match e {
        AffixError::NumParse(_) => "bad number at"@,
        AffixError::WrongTokenType => "token type error"@,
        AffixError::NoConversionInput => "no conversion input found"@,
        AffixError::NoConversionOutput => "no conversion output found"@,
        AffixError::Syntax(s) => "bad affix syntax at "@ + s@,
        AffixError::TableCount { expected, received, missing } => "expected "@ + decimal(missing as nat)
            + " more items of type "@ + expected@ + "; received "@ + received@,
        AffixError::MissingIdentifier => "no identifier found"@,
        AffixError::BadCrossProduct => "bad or missing cross product info"@,
        AffixError::BadTokenType => "bad token type"@,
        AffixError::BadEncodingType => "bad encoding type specified"@,
    }
}

impl AffixError {
    /// The message of the error.
    pub fn to_string(&self) -> (r: String)
        ensures
            r@ == affix_error_message(*self),
    {
        let mut s = String::new();
        match self {
            AffixError::NumParse(_) => push_str(&mut s, "bad number at"),
            AffixError::WrongTokenType => push_str(&mut s, "token type error"),
            AffixError::NoConversionInput => push_str(&mut s, "no conversion input found"),
            AffixError::NoConversionOutput => push_str(&mut s, "no conversion output found"),
            AffixError::Syntax(t) => {
                push_str(&mut s, "bad affix syntax at ");
                push_str(&mut s, t.as_str());
            },
            AffixError::TableCount { expected, received, missing } => {
                push_str(&mut s, "expected ");
                push_str(&mut s, decimal_string(*missing as u64).as_str());
                push_str(&mut s, " more items of type ");
                push_str(&mut s, expected.as_str());
                push_str(&mut s, "; received ");
                push_str(&mut s, received.as_str());
            },
            AffixError::MissingIdentifier => push_str(&mut s, "no identifier found"),
            AffixError::BadCrossProduct => push_str(&mut s, "bad or missing cross product info"),
            AffixError::BadTokenType => push_str(&mut s, "bad token type"),
            AffixError::BadEncodingType => push_str(&mut s, "bad encoding type specified"),
        }
        proof {
            assert(s@ =~= affix_error_message(*self));
        }
        s
    }
}

impl From<ParseIntError> for AffixError {
    fn from(value: ParseIntError) -> (r: AffixError) {
        AffixError::NumParse(value)
    }
}

impl vstd::std_specs::convert::FromSpecImpl<ParseIntError> for AffixError {
    open spec fn obeys_from_spec() -> bool {
        true
    }

    open spec fn from_spec(v: ParseIntError) -> AffixError {
        AffixError::NumParse(v)
    }
}

/// Errors that occur while compiling a dictionary.
#[derive(Debug, PartialEq, Eq)]
pub enum CompileError {
    /// A personal word names a root word that the dictionary lacks
    MissingRootWord { rootword: String },
}

impl CompileError {
    /// The message of the error.
    pub fn to_string(&self) -> (r: String)
        ensures
            match *self {
                CompileError::MissingRootWord { rootword } => r@ == "missing root word "@ + rootword@,
            },
    {
        match self {
            CompileError::MissingRootWord { rootword } => {
                let mut s = String::new();
                push_str(&mut s, "missing root word ");
                push_str(&mut s, rootword.as_str());
                proof {
                    assert(s@ =~= "missing root word "@ + rootword@);
                }
                s
            },
        }
    }
}

} // verus!

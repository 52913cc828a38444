//! Error types of the crate.
//!
//! [`Error`] is the main error type; every other kind of error falls under
//! it.

use std::num::ParseIntError;
use vstd::prelude::*;

use crate::affix::FlagType;
use crate::affix::flag_type_name;
use crate::dict::flags::flag_value_name;
use crate::dict::FlagValue;
use crate::num::{decimal, decimal_string, parse_int_error_message, parse_int_error_text};
use crate::text::{push_char, push_str};

verus! {

#[verifier::external_type_specification]
#[verifier::external_body]
pub struct ExIoErrorKind(std::io::ErrorKind);

/// `std::io::ErrorKind::clone`: the kind is a plain `Copy` enum, so the
/// clone is the same kind.
pub assume_specification[ <std::io::ErrorKind as Clone>::clone ](e: &std::io::ErrorKind) -> (r:
    std::io::ErrorKind)
    ensures
        r == *e,
;

/// Main crate error type, returned by most public functions.
#[derive(Clone, Debug, PartialEq)]
pub enum Error {
    /// Error during parsing
    Parse(ParseError),
    /// Error during building
    Build(BuildError),
    /// Regex error from user-provided input
    Regex(regex::Error),
    /// Error reading a file
    Io(IoError),
}

/// An error that occurred while parsing: what went wrong, roughly where, and
/// the text that caused it.
#[derive(Clone, Debug, PartialEq)]
pub struct ParseError {
    /// The error that occurred
    err: Box<ParseErrorKind>,
    /// Approximate location of the error in source
    span: Option<Span>,
    /// Context of what caused this error
    ctx: String,
}

/// Where a [`ParseError`] occurred.
#[derive(Clone, Copy, Debug, PartialEq, Eq)]
pub struct Span {
    pub start: LineCol,
    pub end: LineCol,
}

/// A location within a file.
#[derive(Clone, Copy, Debug, PartialEq, Eq)]
pub struct LineCol {
    pub line: u32,
    pub col: u32,
}

/// Errors that can occur when building a dictionary.
#[derive(Clone, Debug, PartialEq)]
pub enum BuildError {
    /// Config specified twice in the builder
    BuilderCfgSpecTwice,
    /// Builder config was not specified
    BuilderCfgUnspecified,
    /// A given flag is invalid
    UnknownFlag(String),
    /// Got a flag that does not match the given type
    FlagType { value: String, expected: FlagType },
    /// A flag was used for more than one thing in an affix file
    DuplicateFlag {
        /// Flag string value
        flag: String,
        /// Initial duplicate type
        t1: FlagValue,
        /// Second duplicate type if Some; affix rule if None
        t2: Option<FlagValue>,
    },
    /// A flag in a dictionary file does not match any known flags
    NonmatchingFlag { stem: String, flag: String },
}

/// An I/O error: the file and what went wrong with it.
#[derive(Clone, Debug, PartialEq)]
pub struct IoError {
    fname: String,
    err: std::io::ErrorKind,
}

/// A kind of error that can occur during parsing, with additional
/// information.
#[derive(Clone, Debug, PartialEq)]
pub enum ParseErrorKind {
    /// A boolean flag had content after it
    Boolean,
    /// Expected `a` chars but got `b`
    Char(usize, usize),
    /// Error parsing any integer
    Int(ParseIntError),
    /// Wrong number of items in a table
    TableCount { expected: u32, actual: u32 },
    AffixHeader,
    AffixBody,
    /// String holds the expected flag
    AffixFlagMismatch(String),
    AffixCrossProduct,
    NonWhitespace(char),
    /// Should not contain whitespace but does
    ContainsWhitespace,
    /// Missing the ':' delimiter
    MorphInfoDelim(String),
    /// Unrecognized morph info tag
    MorphInvalidTag(String),
    /// Expected a conversion with two items to split but got this many
    ConversionSplit(usize),
    Encoding,
    /// Failure trying to parse `FLAG`
    FlagType,
    FlagParse(FlagType),
    /// Up to 4 ascii characters max, alphanumeric
    InvalidFlag,
    CompoundSyllableCount(usize),
    CompoundSyllableParse(ParseIntError),
    /// An error parsing the personal dictionary
    Personal,
    CompoundPattern,
    Phonetic(usize),
    PartOfSpeech(String),
    DictEntry,
    /// Regex error while parsing
    Regex(regex::Error),
}

/// An error returned from functions that expect a word to be present in a
/// dictionary but were unable to find the word.
#[derive(Clone, Debug, PartialEq)]
pub struct WordNotFoundError;

/// A `usize` that the crate stores as a `u32`.
///
/// Converting a value above `u32::MAX` is a bug of the caller, not an input
/// error, so such a value is ruled out.
pub fn convertu32(value: usize) -> (r: u32)
    requires
        value <= u32::MAX,
    ensures
        r == value,
{
    value as u32
}

impl LineCol {
    /// The line.
    pub fn line(&self) -> (r: u32)
        ensures
            r == self.line,
    {
        self.line
    }

    /// The column.
    pub fn col(&self) -> (r: u32)
        ensures
            r == self.col,
    {
        self.col
    }
}

impl Span {
    /// A span from `line`, `col` to the same column of the next line.
    pub fn new(line: u32, col: u32) -> (r: Span)
        requires
            line < u32::MAX,
        ensures
            r.start == (LineCol { line, col }),
            r.end == (LineCol { line: (line + 1) as u32, col }),
    {
        let lc = LineCol { line, col };
        Span { start: lc, end: LineCol { line: line + 1, col } }
    }

    /// Where the span starts.
    pub fn start(&self) -> (r: LineCol)
        ensures
            r == self.start,
    {
        self.start
    }

    /// Where the span ends.
    pub fn end(&self) -> (r: LineCol)
        ensures
            r == self.end,
    {
        self.end
    }
}

impl ParseError {
    /// What went wrong.
    pub closed spec fn kind(&self) -> ParseErrorKind {
        *self.err
    }

    /// Where it went wrong, if known.
    pub closed spec fn spec_span(&self) -> Option<Span> {
        self.span
    }

    /// The text that caused the error.
    pub closed spec fn context(&self) -> Seq<char> {
        self.ctx@
    }

    /// The kind of the error.
    pub fn err(&self) -> (r: &ParseErrorKind)
        ensures
            *r == self.kind(),
    {
        &self.err
    }

    /// The location of the error, if known.
    pub fn span(&self) -> (r: Option<&Span>)
        ensures
            match r {
                Some(s) => self.spec_span() == Some(*s),
                None => self.spec_span() is None,
            },
    {
        match &self.span {
            Some(s) => Some(s),
            None => None,
        }
    }

    /// An error at `line`, `col`.
    pub fn new(err: ParseErrorKind, ctx: &str, line: u32, col: u32) -> (r: ParseError)
        requires
            line < u32::MAX,
        ensures
            r.kind() == err,
            r.context() == ctx@,
            r.spec_span() == Some(
                Span {
                    start: LineCol { line, col },
                    end: LineCol { line: (line + 1) as u32, col },
                },
            ),
    {
        ParseError { err: Box::new(err), span: Some(Span::new(line, col)), ctx: ctx.to_owned() }
    }

    /// An error whose location is not known.
    pub fn new_nospan(err: ParseErrorKind, ctx: &str) -> (r: ParseError)
        ensures
            r.kind() == err,
            r.context() == ctx@,
            r.spec_span() is None,
    {
        ParseError { err: Box::new(err), span: None, ctx: ctx.to_owned() }
    }

    /// An error at the start of `line`.
    pub fn new_nocol(err: ParseErrorKind, ctx: &str, line: u32) -> (r: ParseError)
        requires
            line < u32::MAX,
        ensures
            r.kind() == err,
            r.context() == ctx@,
            r.spec_span() == Some(
                Span {
                    start: LineCol { line, col: 0 },
                    end: LineCol { line: (line + 1) as u32, col: 0 },
                },
            ),
    {
        Self::new(err, ctx, line, 0)
    }

    /// Whether [`ParseError::add_offset_ret`] can shift this error by
    /// `line`, `col` without overflowing.
    pub open spec fn can_offset(&self, line: u32, col: u32) -> bool {
        match self.spec_span() {
            Some(s) => s.end.line + line <= u32::MAX && s.start.line + line <= u32::MAX
                && s.start.col + col <= u32::MAX && s.end.col + col <= u32::MAX,
            None => line < u32::MAX,
        }
    }

    /// The same error, moved `line` lines and `col` columns further into the
    /// source; an error with no location gets the span at `line`, `col`.
    pub fn add_offset_ret(self, line: u32, col: u32) -> (r: ParseError)
        requires
            self.can_offset(line, col),
        ensures
            r.kind() == self.kind(),
            r.context() == self.context(),
            r.spec_span() == match self.spec_span() {
                Some(s) => Some(
                    Span {
                        start: LineCol {
                            line: (s.start.line + line) as u32,
                            col: (s.start.col + col) as u32,
                        },
                        end: LineCol {
                            line: (s.end.line + line) as u32,
                            col: (s.end.col + col) as u32,
                        },
                    },
                ),
                None => Some(
                    Span {
                        start: LineCol { line, col },
                        end: LineCol { line: (line + 1) as u32, col },
                    },
                ),
            },
    {
        let mut s = self;
        match s.span {
            Some(sp) => {
                let start = LineCol { line: sp.start.line + line, col: sp.start.col + col };
                let end = LineCol { line: sp.end.line + line, col: sp.end.col + col };
                s.span = Some(Span { start, end });
            },
            None => {
                s.span = Some(Span::new(line, col));
            },
        }
        s
    }
}

impl IoError {
    pub closed spec fn spec_fname(&self) -> Seq<char> {
        self.fname@
    }

    pub closed spec fn spec_err(&self) -> std::io::ErrorKind {
        self.err
    }

    /// An error with file `fname`.
    pub fn new(fname: &str, err: std::io::ErrorKind) -> (r: IoError)
        ensures
            r.spec_fname() == fname@,
            r.spec_err() == err,
    {
        IoError { fname: fname.to_owned(), err }
    }
}

impl From<ParseError> for Error {
    fn from(value: ParseError) -> (r: Error) {
        Error::Parse(value)
    }
}

impl vstd::std_specs::convert::FromSpecImpl<ParseError> for Error {
    open spec fn obeys_from_spec() -> bool {
        true
    }

    open spec fn from_spec(v: ParseError) -> Error {
        Error::Parse(v)
    }
}

impl From<BuildError> for Error {
    fn from(value: BuildError) -> (r: Error) {
        Error::Build(value)
    }
}

impl vstd::std_specs::convert::FromSpecImpl<BuildError> for Error {
    open spec fn obeys_from_spec() -> bool {
        true
    }

    open spec fn from_spec(v: BuildError) -> Error {
        Error::Build(v)
    }
}

impl From<IoError> for Error {
    fn from(value: IoError) -> (r: Error) {
        Error::Io(value)
    }
}

impl vstd::std_specs::convert::FromSpecImpl<IoError> for Error {
    open spec fn obeys_from_spec() -> bool {
        true
    }

    open spec fn from_spec(v: IoError) -> Error {
        Error::Io(v)
    }
}

/* Messages */

/// The message of a `regex::Error`, as its `Display` implementation writes
/// it.
pub uninterp spec fn regex_error_text(e: regex::Error) -> Seq<char>;

/// `regex::Error::to_string`.
///
/// Trusted: the text is what `regex_error_text` names.
#[verifier::external_body]
fn regex_error_message(e: &regex::Error) -> (r: String)
    ensures
        r@ == regex_error_text(*e),
{
    e.to_string()
}

/// The message of an I/O error kind, as its `Display` implementation
/// writes it.
pub uninterp spec fn io_kind_text(k: std::io::ErrorKind) -> Seq<char>;

/// `std::io::ErrorKind::to_string`.
///
/// Trusted: the text is what `io_kind_text` names.
#[verifier::external_body]
fn io_kind_message(k: &std::io::ErrorKind) -> (r: String)
    ensures
        r@ == io_kind_text(*k),
{
    k.to_string()
}

/// `n` in decimal.
fn dec(n: usize) -> (r: String)
    ensures
        r@ == decimal(n as nat),
{
    decimal_string(n as u64)
}

/// The message of a parse error kind.
pub open spec fn kind_message(k: ParseErrorKind) -> Seq<char> {
    match k {
        ParseErrorKind::Boolean => "expected a boolean flag with no content"@,
        ParseErrorKind::Char(a, b) => "expected "@ + decimal(a as nat) + " flags but got "@ + decimal(b as nat),
        ParseErrorKind::Int(e) => "failed to parse integer: "@ + parse_int_error_text(e),
        ParseErrorKind::TableCount { expected, actual } => "expected "@ + decimal(expected as nat)
            + " values in table but got "@ + decimal(actual as nat),
        ParseErrorKind::AffixHeader => "could not parse affix header"@,
        ParseErrorKind::AffixBody => "could not parse affix body"@,
        ParseErrorKind::AffixFlagMismatch(flag) => "invalid affix body: flag does not match expected '"@
            + flag@ + "'"@,
        ParseErrorKind::AffixCrossProduct => "value is not a valid cross product indicator"@,
        ParseErrorKind::NonWhitespace(c) => "unexpected non-comment characters before line termination starting at '"@
            + seq![c] + "'"@,
        ParseErrorKind::MorphInfoDelim(t) => "missing ':' delimiter in morph info at '"@ + t@ + "'"@,
        ParseErrorKind::MorphInvalidTag(t) => "tag '"@ + t@ + "' does not match any morphographic types"@,
        ParseErrorKind::ContainsWhitespace => "not allowed to contain whitespace"@,
        ParseErrorKind::Encoding => "unrecognized encoding"@,
        ParseErrorKind::FlagType => "unrecognized flag"@,
        ParseErrorKind::CompoundPattern => "invalid compound pattern"@,
        ParseErrorKind::Phonetic(n) => "expected 2 items but got "@ + decimal(n as nat),
        ParseErrorKind::DictEntry => "invalid dictionary entry"@,
        ParseErrorKind::PartOfSpeech(t) => "value '"@ + t@ + "' is not a known part of speech"@,
        ParseErrorKind::ConversionSplit(n) => "expected a conversion with 2 items but got "@ + decimal(n as nat),
        ParseErrorKind::CompoundSyllableCount(n) => "expected 2 items but got "@ + decimal(n as nat),
        ParseErrorKind::CompoundSyllableParse(e) => "unable to parse integer: "@ + parse_int_error_text(e),
        ParseErrorKind::Regex(e) => regex_error_text(e),
        ParseErrorKind::Personal => "error parsing entry in personal dictionary"@,
        ParseErrorKind::InvalidFlag => "expected a single alphanumeric flag (4 bytes maximum)"@,
        ParseErrorKind::FlagParse(v) => "error parsing flag of type '"@ + flag_type_name(v) + "'"@,
    }
}

/// `a` followed by `b`.
fn cat2(a: &str, b: &str) -> (r: String)
    ensures
        r@ == a@ + b@,
{
    let mut s = String::new();
    push_str(&mut s, a);
    push_str(&mut s, b);
    proof {
        assert(s@ =~= a@ + b@);
    }
    s
}

/// `a`, `b` and `c` one after the other.
fn cat3(a: &str, b: &str, c: &str) -> (r: String)
    ensures
        r@ == a@ + b@ + c@,
{
    let mut s = cat2(a, b);
    push_str(&mut s, c);
    s
}

/// `a`, `b`, `c` and `d` one after the other.
fn cat4(a: &str, b: &str, c: &str, d: &str) -> (r: String)
    ensures
        r@ == a@ + b@ + c@ + d@,
{
    let mut s = cat3(a, b, c);
    push_str(&mut s, d);
    s
}

impl ParseErrorKind {
    /// The message of the error.
    pub fn to_string(&self) -> (r: String)
        ensures
            r@ == kind_message(*self),
    {
        match self {
            ParseErrorKind::Boolean => "expected a boolean flag with no content".to_owned(),
            ParseErrorKind::Char(a, b) => cat4("expected ", dec(*a).as_str(), " flags but got ", dec(*b).as_str()),
            ParseErrorKind::Int(e) => cat2("failed to parse integer: ", parse_int_error_message(e).as_str()),
            ParseErrorKind::TableCount { expected, actual } => cat4(
                "expected ",
                dec(*expected as usize).as_str(),
                " values in table but got ",
                dec(*actual as usize).as_str(),
            ),
            ParseErrorKind::AffixHeader => "could not parse affix header".to_owned(),
            ParseErrorKind::AffixBody => "could not parse affix body".to_owned(),
            ParseErrorKind::AffixFlagMismatch(flag) => cat3(
                "invalid affix body: flag does not match expected '",
                flag.as_str(),
                "'",
            ),
            ParseErrorKind::AffixCrossProduct => "value is not a valid cross product indicator".to_owned(),
            ParseErrorKind::NonWhitespace(c) => {
                let mut one = String::new();
                push_char(&mut one, *c);
                cat3(
                    "unexpected non-comment characters before line termination starting at '",
                    one.as_str(),
                    "'",
                )
            },
            ParseErrorKind::MorphInfoDelim(t) => cat3("missing ':' delimiter in morph info at '", t.as_str(), "'"),
            ParseErrorKind::MorphInvalidTag(t) => cat3("tag '", t.as_str(), "' does not match any morphographic types"),
            ParseErrorKind::ContainsWhitespace => "not allowed to contain whitespace".to_owned(),
            ParseErrorKind::Encoding => "unrecognized encoding".to_owned(),
            ParseErrorKind::FlagType => "unrecognized flag".to_owned(),
            ParseErrorKind::CompoundPattern => "invalid compound pattern".to_owned(),
            ParseErrorKind::Phonetic(n) => cat2("expected 2 items but got ", dec(*n).as_str()),
            ParseErrorKind::DictEntry => "invalid dictionary entry".to_owned(),
            ParseErrorKind::PartOfSpeech(t) => cat3("value '", t.as_str(), "' is not a known part of speech"),
            ParseErrorKind::ConversionSplit(n) => cat2("expected a conversion with 2 items but got ", dec(*n).as_str()),
            ParseErrorKind::CompoundSyllableCount(n) => cat2("expected 2 items but got ", dec(*n).as_str()),
            ParseErrorKind::CompoundSyllableParse(e) => cat2("unable to parse integer: ", parse_int_error_message(e).as_str()),
            ParseErrorKind::Regex(e) => regex_error_message(e),
            ParseErrorKind::Personal => "error parsing entry in personal dictionary".to_owned(),
            ParseErrorKind::InvalidFlag => "expected a single alphanumeric flag (4 bytes maximum)".to_owned(),
            ParseErrorKind::FlagParse(v) => cat3("error parsing flag of type '", v.as_str(), "'"),
        }
    }

    /// A hint on how to fix the error, where there is one. The hint for an
    /// integer or a table count is not written yet, so those kinds are ruled
    /// out.
    pub fn help_msg(&self) -> (r: Option<&'static str>)
        requires
            !(*self is Int),
            !(*self is TableCount),
        ensures
            match *self {
                ParseErrorKind::Boolean => r matches Some(m) && m@ == "boolean types cannot have anything else on their line"@,
                _ => r is None,
            },
    {
        match self {
            ParseErrorKind::Boolean => Some("boolean types cannot have anything else on their line"),
            _ => None,
        }
    }
}

/// The message of a parse error: with its line and context where its
/// location is known.
pub open spec fn parse_error_message(e: ParseError) -> Seq<char> {
    match e.spec_span() {
        Some(span) => "parse error at line "@ + decimal(span.start.line as nat) + ": "@ + kind_message(e.kind())
            + ". Context: '"@ + e.context() + "'"@,
        None => "parse error: "@ + kind_message(e.kind()),
    }
}

impl ParseError {
    /// The message of the error.
    pub fn to_string(&self) -> (r: String)
        ensures
            r@ == parse_error_message(*self),
    {
        match &self.span {
            Some(span) => {
                let mut s = cat4(
                    "parse error at line ",
                    dec(span.start.line as usize).as_str(),
                    ": ",
                    self.err.to_string().as_str(),
                );
                push_str(&mut s, ". Context: '");
                push_str(&mut s, self.ctx.as_str());
                push_str(&mut s, "'");
                s
            },
            None => cat2("parse error: ", self.err.to_string().as_str()),
        }
    }
}

/// The message of a build error.
pub open spec fn build_error_message(e: BuildError) -> Seq<char> {
    match e {
        BuildError::BuilderCfgSpecTwice => "configuration specified twice in builder"@,
        BuildError::BuilderCfgUnspecified => "configuration unspecified twice in builder"@,
        BuildError::UnknownFlag(v) => "got flag `"@ + v@ + "` that wasn't present in affix configuration"@,
        BuildError::FlagType { value, expected } => "value '"@ + value@ + "' is not valid for flag type "@
            + flag_type_name(expected),
        BuildError::DuplicateFlag { flag, t1, t2 } => match t2 {
            Some(v) => "flag '"@ + flag@ + "' used for two or more flags: '"@ + flag_value_name(t1) + "' and '"@
                + flag_value_name(v) + "'"@,
            None => "flag '"@ + flag@ + "' used for two or more flags: '"@ + flag_value_name(t1)
                + "' and affix rule"@,
        },
        BuildError::NonmatchingFlag { stem, flag } => "stem '"@ + stem@ + "' is marked with flag '"@ + flag@
            + "' but it does not match any patterns"@,
    }
}

impl BuildError {
    /// The message of the error.
    pub fn to_string(&self) -> (r: String)
        ensures
            r@ == build_error_message(*self),
    {
        match self {
            BuildError::BuilderCfgSpecTwice => "configuration specified twice in builder".to_owned(),
            BuildError::BuilderCfgUnspecified => "configuration unspecified twice in builder".to_owned(),
            BuildError::UnknownFlag(v) => cat3("got flag `", v.as_str(), "` that wasn't present in affix configuration"),
            BuildError::FlagType { value, expected } => cat4(
                "value '",
                value.as_str(),
                "' is not valid for flag type ",
                expected.as_str(),
            ),
            BuildError::DuplicateFlag { flag, t1, t2 } => {
                let mut s = cat4("flag '", flag.as_str(), "' used for two or more flags: '", t1.to_string().as_str());
                match t2 {
                    Some(v) => {
                        push_str(&mut s, "' and '");
                        push_str(&mut s, v.to_string().as_str());
                        push_str(&mut s, "'");
                    },
                    None => {
                        push_str(&mut s, "' and affix rule");
                    },
                }
                s
            },
            BuildError::NonmatchingFlag { stem, flag } => {
                let mut s = cat4("stem '", stem.as_str(), "' is marked with flag '", flag.as_str());
                push_str(&mut s, "' but it does not match any patterns");
                s
            },
        }
    }
}

impl IoError {
    /// The message of the error.
    pub fn to_string(&self) -> (r: String)
        ensures
            r@ == "in file '"@ + self.spec_fname() + "' "@ + io_kind_text(self.spec_err()),
    {
        cat4("in file '", self.fname.as_str(), "' ", io_kind_message(&self.err).as_str())
    }
}

/// The message of an error.
pub open spec fn error_message(e: Error) -> Seq<char> {
    match e {
        Error::Parse(p) => "parse error: "@ + parse_error_message(p),
        Error::Build(b) => "build error: "@ + build_error_message(b),
        Error::Regex(r) => "regex error: "@ + regex_error_text(r),
        Error::Io(i) => "io error: "@ + "in file '"@ + i.spec_fname() + "' "@ + io_kind_text(i.spec_err()),
    }
}

impl Error {
    /// The message of the error.
    pub fn to_string(&self) -> (r: String)
        ensures
            r@ == error_message(*self),
    {
        match self {
            Error::Parse(e) => cat2("parse error: ", e.to_string().as_str()),
            Error::Build(e) => cat2("build error: ", e.to_string().as_str()),
            Error::Regex(e) => cat2("regex error: ", regex_error_message(e).as_str()),
            Error::Io(e) => cat2("io error: ", e.to_string().as_str()),
        }
    }
}

/* Errors of the line-by-line parser */

/// What went wrong while reading an affix file line by line, with the text
/// at fault.
#[derive(Clone, Debug, PartialEq, Eq)]
pub enum ParseErrorType {
    /// A boolean flag had content
    Boolean { s: String, key: String },
    /// A flag of more than one character
    Char { s: String, count: usize },
    Int { s: String, err: ParseIntError },
    /// The item count of a table does not read
    TableInt { s: String, err: ParseIntError },
    TableCount { expected: u32, received: u32 },
    AffixHeader(String),
    AffixBody(String),
    AffixFlagMismatch { s: String, flag: String },
    AffixCrossProduct(String),
    NonWhitespace(char),
    /// Should not contain whitespace but does
    ContainsWhitespace(String),
    /// Missing the ':' delimiter
    MorphInfoDelim(String),
    /// Unrecognized morph info tag
    MorphInvalidTag(String),
    Conversion { s: String, count: usize },
    Encoding(String),
    Flag(String),
    CompoundSyllable(String),
    CompoundPattern(String),
    Phonetic(String),
    PartOfSpeech(String),
    CharCount { s: String, expected: u32 },
    DictEntry(String),
}

impl ParseErrorType {
    /// A boolean flag `key` with the content `s`.
    pub fn new_bool(key: &str, s: &str) -> (r: ParseErrorType)
        ensures
            r matches ParseErrorType::Boolean { s: x, key: k } && x@ == s@ && k@ == key@,
    {
        ParseErrorType::Boolean { key: key.to_owned(), s: s.to_owned() }
    }

    /// A flag `s` of `count` characters.
    pub fn new_char(count: usize, s: &str) -> (r: ParseErrorType)
        ensures
            r matches ParseErrorType::Char { s: x, count: c } && x@ == s@ && c == count,
    {
        ParseErrorType::Char { count, s: s.to_owned() }
    }

    /// An integer `s` that does not read.
    pub fn new_int(s: &str, err: ParseIntError) -> (r: ParseErrorType)
        ensures
            r matches ParseErrorType::Int { s: x, err: e } && x@ == s@ && e == err,
    {
        ParseErrorType::Int { s: s.to_owned(), err }
    }

    /// A table count `s` that does not read.
    pub fn new_table_int(s: &str, err: ParseIntError) -> (r: ParseErrorType)
        ensures
            r matches ParseErrorType::TableInt { s: x, err: e } && x@ == s@ && e == err,
    {
        ParseErrorType::TableInt { s: s.to_owned(), err }
    }

    /// A table with `received` rows where `expected` were announced.
    pub fn new_table_count(expected: u32, received: u32) -> (r: ParseErrorType)
        ensures
            r == (ParseErrorType::TableCount { expected, received }),
    {
        ParseErrorType::TableCount { expected, received }
    }

    /// Whether the message of this kind of error is written.
    pub open spec fn has_message(&self) -> bool {
        !(*self is ContainsWhitespace || *self is Conversion || *self is Encoding || *self is Flag
            || *self is CompoundSyllable || *self is CompoundPattern || *self is Phonetic
            || *self is CharCount || *self is DictEntry)
    }

    /// A hint on how to fix the error: given for a boolean flag, none for an
    /// unknown morph tag or part of speech. The hints of the other kinds are
    /// not written, so those kinds are ruled out.
    pub fn help_msg(&self) -> (r: Option<&'static str>)
        requires
            *self is Boolean || *self is MorphInvalidTag || *self is PartOfSpeech,
        ensures
            *self is Boolean ==> (r matches Some(m) && m@ == "boolean types cannot have anything else on their line"@),
            !(*self is Boolean) ==> r is None,
    {
        match self {
            ParseErrorType::Boolean { .. } => Some("boolean types cannot have anything else on their line"),
            _ => None,
        }
    }

    /// The message of the error. The messages of some kinds are not written,
    /// so those kinds are ruled out.
    pub fn to_string(&self) -> (r: String)
        requires
            self.has_message(),
        ensures
            r@ == type_message(*self),
    {
        match self {
            ParseErrorType::Boolean { s, key } => cat4(key.as_str(), " is a boolean flag; got content '", s.as_str(), "'"),
            ParseErrorType::Char { s, count } => {
                let mut r = cat4("expected a single character flag but got ", dec(*count).as_str(), " chars at '", s.as_str());
                push_str(&mut r, "'");
                r
            },
            ParseErrorType::Int { s, err } => {
                let mut r = cat3("failed to parse integer at '", s.as_str(), "': ");
                push_str(&mut r, parse_int_error_message(err).as_str());
                r
            },
            ParseErrorType::TableInt { s, err } => {
                let mut r = cat3("failed to parse table item count at '", s.as_str(), "': ");
                push_str(&mut r, parse_int_error_message(err).as_str());
                r
            },
            ParseErrorType::TableCount { expected, received } => cat4(
                "expected ",
                dec(*expected as usize).as_str(),
                " values in table but got ",
                dec(*received as usize).as_str(),
            ),
            ParseErrorType::AffixHeader(s) => cat3("could not parse affix header pattern at '", s.as_str(), "'"),
            ParseErrorType::AffixBody(s) => cat3("could not parse affix body pattern at '", s.as_str(), "'"),
            ParseErrorType::AffixFlagMismatch { s, flag } => {
                let mut r = cat4(
                    "could not parse affix body pattern at '",
                    s.as_str(),
                    "': flag does not match expected '",
                    flag.as_str(),
                );
                push_str(&mut r, "'");
                r
            },
            ParseErrorType::AffixCrossProduct(s) => cat3("value ", s.as_str(), " is not a valid cross product indicator"),
            ParseErrorType::NonWhitespace(c) => {
                let mut one = String::new();
                push_char(&mut one, *c);
                cat3(
                    "unexpected non-comment characters before line termination starting at '",
                    one.as_str(),
                    "'",
                )
            },
            ParseErrorType::MorphInfoDelim(s) => cat3("missing ':' delimiter in morph info at '", s.as_str(), "'"),
            ParseErrorType::MorphInvalidTag(s) => cat3("tag '", s.as_str(), "' does not match any morphographic types"),
            ParseErrorType::PartOfSpeech(s) => cat3("value '", s.as_str(), "' is not a known part of speech"),
            _ => String::new(),
        }
    }
}

/// The message of an error of the line-by-line parser, where it is written.
pub open spec fn type_message(e: ParseErrorType) -> Seq<char> {
    match e {
        ParseErrorType::Boolean { s, key } => key@ + " is a boolean flag; got content '"@ + s@ + "'"@,
        ParseErrorType::Char { s, count } => "expected a single character flag but got "@ + decimal(count as nat)
            + " chars at '"@ + s@ + "'"@,
        ParseErrorType::Int { s, err } => "failed to parse integer at '"@ + s@ + "': "@ + parse_int_error_text(err),
        ParseErrorType::TableInt { s, err } => "failed to parse table item count at '"@ + s@ + "': "@
            + parse_int_error_text(err),
        ParseErrorType::TableCount { expected, received } => "expected "@ + decimal(expected as nat)
            + " values in table but got "@ + decimal(received as nat),
        ParseErrorType::AffixHeader(s) => "could not parse affix header pattern at '"@ + s@ + "'"@,
        ParseErrorType::AffixBody(s) => "could not parse affix body pattern at '"@ + s@ + "'"@,
        ParseErrorType::AffixFlagMismatch { s, flag } => "could not parse affix body pattern at '"@ + s@
            + "': flag does not match expected '"@ + flag@ + "'"@,
        ParseErrorType::AffixCrossProduct(s) => "value "@ + s@ + " is not a valid cross product indicator"@,
        ParseErrorType::NonWhitespace(c) => "unexpected non-comment characters before line termination starting at '"@
            + seq![c] + "'"@,
        ParseErrorType::MorphInfoDelim(s) => "missing ':' delimiter in morph info at '"@ + s@ + "'"@,
        ParseErrorType::MorphInvalidTag(s) => "tag '"@ + s@ + "' does not match any morphographic types"@,
        ParseErrorType::PartOfSpeech(s) => "value '"@ + s@ + "' is not a known part of speech"@,
        _ => Seq::empty(),
    }
}

} // verus!

//! The values that an affix file sets: encodings, flag types, conversions,
//! phonetic rules, compound patterns and parts of speech.

use vstd::prelude::*;
use vstd::string::StringExecFns;

use crate::error::ParseErrorKind;
use crate::errors::AffixError;
use crate::num::{parse_u16, parse_u32, unsigned_value};
use crate::re::{regex_captures, regex_compiles, ReWrapper};
use crate::parser_affix::node::{pattern_view, CompoundPatternView};
use crate::text::{
    ascii_lower, ascii_lowercase, char_from_u32, chars_are, chars_of, fields, is_char_value,
    push_char, spec_to_lowercase, split_whitespace, string_of, to_lowercase,
};

verus! {

/// A character encoding that an affix file may declare with `SET`.
#[derive(Clone, Copy, Debug, PartialEq, Eq, Structural)]
pub enum Encoding {
    /// UTF-8 encoding
    Utf8,
    /// ISO8859-1 encoding
    Iso8859t1,
    /// ISO8859-10 encoding
    Iso8859t10,
    /// ISO8859-13 encoding
    Iso8859t13,
    /// ISO8859-15 encoding
    Iso8859t15,
    /// KOI8-R encoding
    Koi8R,
    /// KOI8-U encoding
    Koi8U,
    /// cp1251 encoding
    Cp1251,
    /// ISCII-DEVANAGARI encoding
    IsciiDevanagari,
}

/// How flags are written after the `/` of a dictionary word (`FLAG`).
#[derive(Clone, Copy, Debug, PartialEq, Eq, Structural)]
pub enum FlagType {
    /// One ASCII character per flag
    Ascii,
    /// One Unicode character per flag (the default)
    Utf8,
    /// Two characters, each below 256, per flag
    Long,
    /// Decimal numbers separated by commas
    Number,
}

/// The flag type under its other name.
pub type Flag = FlagType;

/// A simple input-to-output conversion mapping.
///
/// This is usually represented in an affix file via `REP`, `ICONV`, and
/// `OCONV`.
#[derive(Clone, Debug, PartialEq, Eq)]
pub struct Conversion {
    pub input: String,
    pub output: String,
    pub bidirectional: bool,
}

/// Syllable counting for compounds (`COMPOUNDSYLLABLE count vowels`).
#[derive(Clone, Debug, PartialEq, Eq)]
pub struct CompoundSyllable {
    pub count: u16,
    pub vowels: String,
}

/// A phonetic replacement (`PHONE pattern replacement`).
#[derive(Clone, Debug, PartialEq, Eq)]
pub struct Phonetic {
    pub pattern: String,
    pub replace: String,
}

/// A forbidden compound pattern (`CHECKCOMPOUNDPATTERN`).
#[derive(Clone, Debug, PartialEq, Eq)]
pub struct CompoundPattern {
    pub endchars: String,
    pub endflag: Option<String>,
    pub beginchars: String,
    pub beginflag: Option<String>,
    pub replacement: Option<String>,
}

/// A part of speech (`po:` morph).
#[derive(Clone, Copy, Debug, PartialEq, Eq, Hash, Structural)]
pub enum PartOfSpeech {
    Noun,
    Verb,
    Adjective,
    Determiner,
    Adverb,
    Pronoun,
    Preposition,
    Conjunction,
    Interjection,
}

/// Whether an affix rule adds a prefix or a suffix.
#[derive(Clone, Copy, Debug, PartialEq, Eq, Hash, Structural)]
pub enum RuleType {
    Prefix,
    Suffix,
}

/* Encoding */

/// The name of an encoding as affix files write it.
pub open spec fn encoding_name(e: Encoding) -> Seq<char> {
    match e {
        Encoding::Utf8 => "UTF-8"@,
        Encoding::Iso8859t1 => "ISO8859-1"@,
        Encoding::Iso8859t10 => "ISO8859-10"@,
        Encoding::Iso8859t13 => "ISO8859-13"@,
        Encoding::Iso8859t15 => "ISO8859-15"@,
        Encoding::Koi8R => "KOI8-R"@,
        Encoding::Koi8U => "KOI8-U"@,
        Encoding::Cp1251 => "cp1251"@,
        Encoding::IsciiDevanagari => "ISCII-DEVANAGARI"@,
    }
}

/// The encoding named by `s` once lowered to ASCII lowercase.
pub open spec fn encoding_of_lower(s: Seq<char>) -> Option<Encoding> {
    if s == "utf-8"@ {
        Some(Encoding::Utf8)
    } else if s == "iso8859-1"@ {
        Some(Encoding::Iso8859t1)
    } else if s == "iso8859-10"@ {
        Some(Encoding::Iso8859t10)
    } else if s == "iso8859-13"@ {
        Some(Encoding::Iso8859t13)
    } else if s == "iso8859-15"@ {
        Some(Encoding::Iso8859t15)
    } else if s == "koi8-r"@ {
        Some(Encoding::Koi8R)
    } else if s == "koi8-u"@ {
        Some(Encoding::Koi8U)
    } else if s == "cp1251"@ {
        Some(Encoding::Cp1251)
    } else if s == "iscii-devanagari"@ {
        Some(Encoding::IsciiDevanagari)
    } else {
        None
    }
}

/// The encoding that `s` names, ignoring ASCII case.
pub open spec fn encoding_of(s: Seq<char>) -> Option<Encoding> {
    encoding_of_lower(ascii_lower(s))
}


/// Reading back the name of an encoding gives that encoding.
pub proof fn law_encoding_round_trip(e: Encoding)
    ensures
        encoding_of(encoding_name(e)) == Some(e),
{
    reveal_strlit("UTF-8");
    reveal_strlit("ISO8859-1");
    reveal_strlit("ISO8859-10");
    reveal_strlit("ISO8859-13");
    reveal_strlit("ISO8859-15");
    reveal_strlit("KOI8-R");
    reveal_strlit("KOI8-U");
    reveal_strlit("cp1251");
    reveal_strlit("ISCII-DEVANAGARI");
    reveal_strlit("utf-8");
    reveal_strlit("iso8859-1");
    reveal_strlit("iso8859-10");
    reveal_strlit("iso8859-13");
    reveal_strlit("iso8859-15");
    reveal_strlit("koi8-r");
    reveal_strlit("koi8-u");
    reveal_strlit("cp1251");
    reveal_strlit("iscii-devanagari");
    assert("utf-8"@.len() == 5);
    assert("iso8859-1"@.len() == 9);
    assert("iso8859-10"@.len() == 10);
    assert("iso8859-13"@.len() == 10);
    assert("iso8859-15"@.len() == 10);
    assert("koi8-r"@.len() == 6);
    assert("koi8-u"@.len() == 6);
    assert("cp1251"@.len() == 6);
    assert("iscii-devanagari"@.len() == 16);
    assert("cp1251"@[0] == 'c');
    assert("iso8859-10"@[9] == '0');
    assert("iso8859-13"@[9] == '3');
    assert("iso8859-15"@[9] == '5');
    assert("koi8-r"@[0] == 'k');
    assert("koi8-r"@[5] == 'r');
    assert("koi8-u"@[0] == 'k');
    assert("koi8-u"@[5] == 'u');
    if e == Encoding::Utf8 {
        assert(ascii_lower("UTF-8"@) =~= "utf-8"@);
    } else if e == Encoding::Iso8859t1 {
        assert(ascii_lower("ISO8859-1"@) =~= "iso8859-1"@);
    } else if e == Encoding::Iso8859t10 {
        assert(ascii_lower("ISO8859-10"@) =~= "iso8859-10"@);
    } else if e == Encoding::Iso8859t13 {
        assert(ascii_lower("ISO8859-13"@) =~= "iso8859-13"@);
    } else if e == Encoding::Iso8859t15 {
        assert(ascii_lower("ISO8859-15"@) =~= "iso8859-15"@);
    } else if e == Encoding::Koi8R {
        assert(ascii_lower("KOI8-R"@) =~= "koi8-r"@);
    } else if e == Encoding::Koi8U {
        assert(ascii_lower("KOI8-U"@) =~= "koi8-u"@);
    } else if e == Encoding::Cp1251 {
        assert(ascii_lower("cp1251"@) =~= "cp1251"@);
    } else if e == Encoding::IsciiDevanagari {
        assert(ascii_lower("ISCII-DEVANAGARI"@) =~= "iscii-devanagari"@);
    }
}

/// A text names an encoding exactly when, lowered to ASCII lowercase, it
/// is the name of that encoding lowered the same way.
pub proof fn law_encoding_names(e: Encoding, s: Seq<char>)
    ensures
        encoding_of(s) == Some(e) <==> ascii_lower(s) == ascii_lower(encoding_name(e)),
{
    reveal_strlit("UTF-8");
    reveal_strlit("ISO8859-1");
    reveal_strlit("ISO8859-10");
    reveal_strlit("ISO8859-13");
    reveal_strlit("ISO8859-15");
    reveal_strlit("KOI8-R");
    reveal_strlit("KOI8-U");
    reveal_strlit("cp1251");
    reveal_strlit("ISCII-DEVANAGARI");
    reveal_strlit("utf-8");
    reveal_strlit("iso8859-1");
    reveal_strlit("iso8859-10");
    reveal_strlit("iso8859-13");
    reveal_strlit("iso8859-15");
    reveal_strlit("koi8-r");
    reveal_strlit("koi8-u");
    reveal_strlit("cp1251");
    reveal_strlit("iscii-devanagari");
    assert("utf-8"@.len() == 5);
    assert("iso8859-1"@.len() == 9);
    assert("iso8859-10"@.len() == 10);
    assert("iso8859-13"@.len() == 10);
    assert("iso8859-15"@.len() == 10);
    assert("koi8-r"@.len() == 6);
    assert("koi8-u"@.len() == 6);
    assert("cp1251"@.len() == 6);
    assert("iscii-devanagari"@.len() == 16);
    assert("cp1251"@[0] == 'c');
    assert("iso8859-10"@[9] == '0');
    assert("iso8859-13"@[9] == '3');
    assert("iso8859-15"@[9] == '5');
    assert("koi8-r"@[0] == 'k');
    assert("koi8-r"@[5] == 'r');
    assert("koi8-u"@[0] == 'k');
    assert("koi8-u"@[5] == 'u');
    if e == Encoding::Utf8 {
        assert(ascii_lower("UTF-8"@) =~= "utf-8"@);
    } else if e == Encoding::Iso8859t1 {
        assert(ascii_lower("ISO8859-1"@) =~= "iso8859-1"@);
    } else if e == Encoding::Iso8859t10 {
        assert(ascii_lower("ISO8859-10"@) =~= "iso8859-10"@);
    } else if e == Encoding::Iso8859t13 {
        assert(ascii_lower("ISO8859-13"@) =~= "iso8859-13"@);
    } else if e == Encoding::Iso8859t15 {
        assert(ascii_lower("ISO8859-15"@) =~= "iso8859-15"@);
    } else if e == Encoding::Koi8R {
        assert(ascii_lower("KOI8-R"@) =~= "koi8-r"@);
    } else if e == Encoding::Koi8U {
        assert(ascii_lower("KOI8-U"@) =~= "koi8-u"@);
    } else if e == Encoding::Cp1251 {
        assert(ascii_lower("cp1251"@) =~= "cp1251"@);
    } else if e == Encoding::IsciiDevanagari {
        assert(ascii_lower("ISCII-DEVANAGARI"@) =~= "iscii-devanagari"@);
    }
}

impl Default for Encoding {
    fn default() -> (r: Encoding)
        ensures
            r == Encoding::Utf8,
    {
        Encoding::Utf8
    }
}

impl Encoding {
    /// Read an encoding name, ignoring ASCII case.
    pub fn try_from(value: &str) -> (r: Result<Encoding, ParseErrorKind>)
        ensures
            match r {
                Ok(e) => encoding_of(value@) == Some(e),
                Err(e) => encoding_of(value@) is None && e == ParseErrorKind::Encoding,
            },
    {
        let l = ascii_lowercase(value);
        let t = l.as_slice();
        if chars_are(t, "utf-8") {
            Ok(Encoding::Utf8)
        } else if chars_are(t, "iso8859-1") {
            Ok(Encoding::Iso8859t1)
        } else if chars_are(t, "iso8859-10") {
            Ok(Encoding::Iso8859t10)
        } else if chars_are(t, "iso8859-13") {
            Ok(Encoding::Iso8859t13)
        } else if chars_are(t, "iso8859-15") {
            Ok(Encoding::Iso8859t15)
        } else if chars_are(t, "koi8-r") {
            Ok(Encoding::Koi8R)
        } else if chars_are(t, "koi8-u") {
            Ok(Encoding::Koi8U)
        } else if chars_are(t, "cp1251") {
            Ok(Encoding::Cp1251)
        } else if chars_are(t, "iscii-devanagari") {
            Ok(Encoding::IsciiDevanagari)
        } else {
            Err(ParseErrorKind::Encoding)
        }
    }

    /// The name of the encoding as affix files write it.
    pub fn as_str(&self) -> (r: &'static str)
        ensures
            r@ == encoding_name(*self),
    {
        match self {
            Encoding::Utf8 => "UTF-8",
            Encoding::Iso8859t1 => "ISO8859-1",
            Encoding::Iso8859t10 => "ISO8859-10",
            Encoding::Iso8859t13 => "ISO8859-13",
            Encoding::Iso8859t15 => "ISO8859-15",
            Encoding::Koi8R => "KOI8-R",
            Encoding::Koi8U => "KOI8-U",
            Encoding::Cp1251 => "cp1251",
            Encoding::IsciiDevanagari => "ISCII-DEVANAGARI",
        }
    }
}

/* Flag types */

/// The name of a flag type as affix files write it.
pub open spec fn flag_type_name(f: FlagType) -> Seq<char> {
    match f {
        FlagType::Ascii => "ASCII"@,
        FlagType::Utf8 => "UTF-8"@,
        FlagType::Long => "long"@,
        FlagType::Number => "num"@,
    }
}

/// The flag type named by `s`, ignoring ASCII case.
pub open spec fn flag_type_of(s: Seq<char>) -> Option<FlagType> {
    let l = ascii_lower(s);
    if l == "ascii"@ {
        Some(FlagType::Ascii)
    } else if l == "utf-8"@ {
        Some(FlagType::Utf8)
    } else if l == "long"@ {
        Some(FlagType::Long)
    } else if l == "num"@ {
        Some(FlagType::Number)
    } else {
        None
    }
}

/// The flag that `s` writes under flag type `ft`.
pub open spec fn flag_of(ft: FlagType, s: Seq<char>) -> Option<u32> {
    match ft {
        FlagType::Ascii => if s.len() == 1 && (s[0] as u32) < 128 {
            Some(s[0] as u32)
        } else {
            None
        },
        FlagType::Utf8 => if s.len() == 1 {
            Some(s[0] as u32)
        } else {
            None
        },
        FlagType::Long => if s.len() == 2 && (s[0] as u32) < 256 && (s[1] as u32) < 256 {
            Some((s[0] as u32 * 256 + s[1] as u32) as u32)
        } else {
            None
        },
        FlagType::Number => match unsigned_value(s) {
            Some(v) => if v <= u32::MAX {
                Some(v as u32)
            } else {
                None
            },
            None => None,
        },
    }
}

/// The error that [`FlagType::str_to_flag`] gives for `s`.
pub open spec fn flag_error(ft: FlagType, s: Seq<char>, e: ParseErrorKind) -> bool {
    match ft {
        FlagType::Ascii => if s.len() != 1 {
            e == ParseErrorKind::Char(1, s.len() as usize)
        } else {
            e == ParseErrorKind::FlagParse(FlagType::Ascii)
        },
        FlagType::Utf8 => e == ParseErrorKind::Char(1, s.len() as usize),
        FlagType::Long => if s.len() != 2 {
            e == ParseErrorKind::Char(2, s.len() as usize)
        } else {
            e == ParseErrorKind::FlagParse(FlagType::Long)
        },
        FlagType::Number => e is Int,
    }
}

/// The text [`FlagType::flag_to_str`] writes for flag `v`.
pub open spec fn flag_text(ft: FlagType, v: u32) -> Seq<char> {
    match ft {
        FlagType::Ascii | FlagType::Utf8 => if is_char_value(v) {
            seq![v as char]
        } else {
            crate::num::decimal(v as nat)
        },
        FlagType::Long => if v < 65536 {
            seq![(v / 256) as char, (v % 256) as char]
        } else {
            crate::num::decimal(v as nat)
        },
        FlagType::Number => crate::num::decimal(v as nat),
    }
}

impl Default for FlagType {
    fn default() -> (r: FlagType)
        ensures
            r == FlagType::Utf8,
    {
        FlagType::Utf8
    }
}

impl FlagType {
    /// Read a flag type name (`FLAG`), ignoring ASCII case.
    pub fn try_from(value: &str) -> (r: Result<FlagType, ParseErrorKind>)
        ensures
            match r {
                Ok(f) => flag_type_of(value@) == Some(f),
                Err(e) => flag_type_of(value@) is None && e == ParseErrorKind::FlagType,
            },
    {
        let l = ascii_lowercase(value);
        let t = l.as_slice();
        if chars_are(t, "ascii") {
            Ok(FlagType::Ascii)
        } else if chars_are(t, "utf-8") {
            Ok(FlagType::Utf8)
        } else if chars_are(t, "long") {
            Ok(FlagType::Long)
        } else if chars_are(t, "num") {
            Ok(FlagType::Number)
        } else {
            Err(ParseErrorKind::FlagType)
        }
    }

    /// The name of the flag type as affix files write it.
    pub fn as_str(&self) -> (r: &'static str)
        ensures
            r@ == flag_type_name(*self),
    {
        match self {
            FlagType::Ascii => "ASCII",
            FlagType::Utf8 => "UTF-8",
            FlagType::Long => "long",
            FlagType::Number => "num",
        }
    }

    /// Read one flag written in this flag type.
    pub fn str_to_flag(&self, s: &str) -> (r: Result<u32, ParseErrorKind>)
        ensures
            match r {
                Ok(v) => flag_of(*self, s@) == Some(v),
                Err(e) => flag_of(*self, s@) is None && flag_error(*self, s@, e),
            },
    {
        let t = chars_of(s);
        self.chars_to_flag(t.as_slice(), s)
    }

    fn chars_to_flag(&self, t: &[char], s: &str) -> (r: Result<u32, ParseErrorKind>)
        requires
            t@ == s@,
        ensures
            match r {
                Ok(v) => flag_of(*self, s@) == Some(v),
                Err(e) => flag_of(*self, s@) is None && flag_error(*self, s@, e),
            },
    {
        let n = t.len();
        match self {
            FlagType::Ascii => {
                if n != 1 {
                    Err(ParseErrorKind::Char(1, n))
                } else if (t[0] as u32) < 128 {
                    Ok(t[0] as u32)
                } else {
                    Err(ParseErrorKind::FlagParse(FlagType::Ascii))
                }
            },
            FlagType::Utf8 => {
                if n != 1 {
                    Err(ParseErrorKind::Char(1, n))
                } else {
                    Ok(t[0] as u32)
                }
            },
            FlagType::Long => {
                if n != 2 {
                    Err(ParseErrorKind::Char(2, n))
                } else if (t[0] as u32) < 256 && (t[1] as u32) < 256 {
                    Ok((t[0] as u32) * 256 + (t[1] as u32))
                } else {
                    Err(ParseErrorKind::FlagParse(FlagType::Long))
                }
            },
            FlagType::Number => match parse_u32(s) {
                Ok(v) => Ok(v),
                Err(e) => Err(ParseErrorKind::Int(e)),
            },
        }
    }

    /// Write flag `v` in this flag type; a value that the type cannot write
    /// is written in decimal.
    pub fn flag_to_str(&self, v: u32) -> (r: String)
        ensures
            r@ == flag_text(*self, v),
    {
        match self {
            FlagType::Ascii | FlagType::Utf8 => match char_from_u32(v) {
                Some(c) => {
                    let mut s = String::new();
                    push_char(&mut s, c);
                    assert(s@ =~= seq![c]);
                    s
                },
                None => crate::num::decimal_string(v as u64),
            },
            FlagType::Long => {
                if v < 65536 {
                    let hi = char_from_u32(v / 256);
                    let lo = char_from_u32(v % 256);
                    match (hi, lo) {
                        (Some(h), Some(l)) => {
                            let mut s = String::new();
                            push_char(&mut s, h);
                            push_char(&mut s, l);
                            assert(s@ =~= seq![h, l]);
                            s
                        },
                        _ => crate::num::decimal_string(v as u64),
                    }
                } else {
                    crate::num::decimal_string(v as u64)
                }
            },
            FlagType::Number => crate::num::decimal_string(v as u64),
        }
    }
}

/// Reading back a flag that the flag type can write gives the flag.
pub proof fn law_flag_round_trip(ft: FlagType, v: u32)
    requires
        match ft {
            FlagType::Ascii => v < 128,
            FlagType::Utf8 => is_char_value(v),
            FlagType::Long => v < 65536,
            FlagType::Number => true,
        },
    ensures
        flag_of(ft, flag_text(ft, v)) == Some(v),
{
    match ft {
        FlagType::Number => {
            crate::num::lemma_decimal_reads_back(v as nat);
        },
        FlagType::Long => {
            assert(v / 256 < 256) by (nonlinear_arith)
                requires
                    v < 65536,
            ;
            assert((v / 256) * 256 + v % 256 == v) by (nonlinear_arith);
        },
        _ => {},
    }
}

/// Writing a flag that was read gives back the text it was read from, for
/// the flag types whose flags have one spelling.
pub proof fn law_flag_text_round_trip(ft: FlagType, s: Seq<char>)
    requires
        ft != FlagType::Number,
        flag_of(ft, s) is Some,
    ensures
        flag_text(ft, flag_of(ft, s)->0) == s,
{
    match ft {
        FlagType::Long => {
            let a = s[0] as u32;
            let b = s[1] as u32;
            let v = (a * 256 + b) as u32;
            assert(v / 256 == a && v % 256 == b) by (nonlinear_arith)
                requires
                    v == a * 256 + b,
                    a < 256,
                    b < 256,
            ;
            vstd::utf8::char_u32_cast(s[0], a);
            vstd::utf8::char_u32_cast(s[1], b);
            assert(flag_text(ft, v) =~= s);
        },
        _ => {
            let a = s[0] as u32;
            vstd::utf8::char_is_scalar(s[0]);
            vstd::utf8::char_u32_cast(s[0], a);
            assert(flag_text(ft, flag_of(ft, s)->0) =~= s);
        },
    }
}

/* Conversions and other table rows */

impl Conversion {
    /// A conversion from `input` to `output`.
    pub fn new(input: &str, output: &str, bidirectional: bool) -> (r: Conversion)
        ensures
            r.input@ == input@,
            r.output@ == output@,
            r.bidirectional == bidirectional,
    {
        Conversion { input: input.to_owned(), output: output.to_owned(), bidirectional }
    }

    /// Read a conversion written as two whitespace-separated items.
    pub fn from_str(value: &str, bidirectional: bool) -> (r: Result<Conversion, ParseErrorKind>)
        ensures
            match r {
                Ok(c) => fields(value@).len() == 2 && c.input@ == fields(value@)[0] && c.output@
                    == fields(value@)[1] && c.bidirectional == bidirectional,
                Err(e) => fields(value@).len() != 2 && e == ParseErrorKind::ConversionSplit(
                    fields(value@).len() as usize,
                ),
            },
    {
        let split = split_whitespace(value);
        proof {
            assert(split@.map_values(|x: String| x@).len() == split@.len());
        }
        if split.len() != 2 {
            return Err(ParseErrorKind::ConversionSplit(split.len()));
        }
        proof {
            assert(split@.map_values(|x: String| x@)[0] == split@[0]@);
            assert(split@.map_values(|x: String| x@)[1] == split@[1]@);
        }
        Ok(Conversion { input: split[0].clone(), output: split[1].clone(), bidirectional })
    }

    /// The conversions of a table of token rows: the first row holds the
    /// count and is passed over; each other row gives its first item as the
    /// input and its second as the output. A row without an input or an
    /// output is an error.
    pub fn from_processed_token(table: &Vec<Vec<String>>, bidirectional: bool) -> (r: Result<
        Vec<Conversion>,
        AffixError,
    >)
        requires
            table@.len() >= 1,
        ensures
            match table_conversions(table_view(table@).drop_first(), bidirectional) {
                Ok(cs) => r matches Ok(v) && v@.map_values(|c: Conversion| (c.input@, c.output@, c.bidirectional))
                    == cs,
                Err(e) => r matches Err(x) && x == e,
            },
    {
        let ghost rows = table_view(table@).drop_first();
        let mut ret: Vec<Conversion> = Vec::new();
        let mut i: usize = 1;
        proof {
            assert(rows.take(0) =~= Seq::<Seq<Seq<char>>>::empty());
            assert(ret@.map_values(|c: Conversion| (c.input@, c.output@, c.bidirectional)) =~= Seq::<
                (Seq<char>, Seq<char>, bool),
            >::empty());
        }
        while i < table.len()
            invariant
                1 <= i <= table@.len(),
                rows == table_view(table@).drop_first(),
                table_conversions(rows.take(i - 1), bidirectional) == Ok::<Seq<(Seq<char>, Seq<char>, bool)>, AffixError>(
                    ret@.map_values(|c: Conversion| (c.input@, c.output@, c.bidirectional)),
                ),
            decreases table@.len() - i,
        {
            let row = &table[i];
            proof {
                assert(rows.take(i as int).drop_last() =~= rows.take(i - 1));
                assert(rows.take(i as int).last() == rows[i - 1]);
                assert(rows[i - 1] == row@.map_values(|x: String| x@));
            }
            if row.len() < 1 {
                proof {
                    lemma_table_conversions_err(rows, bidirectional, i as int);
                }
                return Err(AffixError::NoConversionInput);
            }
            if row.len() < 2 {
                proof {
                    lemma_table_conversions_err(rows, bidirectional, i as int);
                }
                return Err(AffixError::NoConversionOutput);
            }
            let c = Conversion { input: row[0].clone(), output: row[1].clone(), bidirectional };
            let ghost before = ret@;
            ret.push(c);
            proof {
                assert(ret@.map_values(|c: Conversion| (c.input@, c.output@, c.bidirectional)) =~= before.map_values(
                    |c: Conversion| (c.input@, c.output@, c.bidirectional),
                ).push((row@[0]@, row@[1]@, bidirectional)));
            }
            i += 1;
        }
        proof {
            assert(rows.take(i - 1) =~= rows);
        }
        Ok(ret)
    }
}

/// The texts of a table of token rows.
pub open spec fn table_view(t: Seq<Vec<String>>) -> Seq<Seq<Seq<char>>> {
    t.map_values(|row: Vec<String>| row@.map_values(|x: String| x@))
}

/// The conversions of the rows `rows`, each an input and an output, or the
/// error of the first row that lacks one.
pub open spec fn table_conversions(rows: Seq<Seq<Seq<char>>>, bidi: bool) -> Result<
    Seq<(Seq<char>, Seq<char>, bool)>,
    AffixError,
>
    decreases rows.len(),
{
    if rows.len() == 0 {
        Ok(Seq::empty())
    } else {
        match table_conversions(rows.drop_last(), bidi) {
            Err(e) => Err(e),
            Ok(cs) => {
                let row = rows.last();
                if row.len() < 1 {
                    Err(AffixError::NoConversionInput)
                } else if row.len() < 2 {
                    Err(AffixError::NoConversionOutput)
                } else {
                    Ok(cs.push((row[0], row[1], bidi)))
                }
            },
        }
    }
}

/// An error at row `i` stays the result however many rows follow.
proof fn lemma_table_conversions_err(rows: Seq<Seq<Seq<char>>>, bidi: bool, i: int)
    requires
        1 <= i <= rows.len(),
        table_conversions(rows.take(i), bidi) is Err,
    ensures
        table_conversions(rows, bidi) == table_conversions(rows.take(i), bidi),
    decreases rows.len() - i,
{
    if i < rows.len() {
        assert(rows.take(i + 1).drop_last() =~= rows.take(i));
        lemma_table_conversions_err(rows, bidi, i + 1);
    } else {
        assert(rows.take(i) =~= rows);
    }
}

impl Phonetic {
    /// A phonetic rule replacing `pattern` with `replace`.
    pub fn new(pattern: &str, replace: &str) -> (r: Phonetic)
        ensures
            r.pattern@ == pattern@,
            r.replace@ == replace@,
    {
        Phonetic { pattern: pattern.to_owned(), replace: replace.to_owned() }
    }

    /// Read a phonetic rule written as two whitespace-separated items.
    pub fn try_from(value: &str) -> (r: Result<Phonetic, ParseErrorKind>)
        ensures
            match r {
                Ok(p) => fields(value@).len() == 2 && p.pattern@ == fields(value@)[0]
                    && p.replace@ == fields(value@)[1],
                Err(e) => fields(value@).len() != 2 && e == ParseErrorKind::Phonetic(
                    fields(value@).len() as usize,
                ),
            },
    {
        let split = split_whitespace(value);
        proof {
            assert(split@.map_values(|x: String| x@).len() == split@.len());
        }
        if split.len() != 2 {
            return Err(ParseErrorKind::Phonetic(split.len()));
        }
        proof {
            assert(split@.map_values(|x: String| x@)[0] == split@[0]@);
            assert(split@.map_values(|x: String| x@)[1] == split@[1]@);
        }
        Ok(Phonetic { pattern: split[0].clone(), replace: split[1].clone() })
    }
}

impl Default for CompoundSyllable {
    fn default() -> (r: CompoundSyllable)
        ensures
            r.count == 0,
            r.vowels@ == Seq::<char>::empty(),
    {
        CompoundSyllable { count: 0, vowels: String::new() }
    }
}

impl CompoundSyllable {
    /// Read `count vowels`.
    pub fn try_from(value: &str) -> (r: Result<CompoundSyllable, ParseErrorKind>)
        ensures
            match r {
                Ok(c) => fields(value@).len() == 2 && unsigned_value(fields(value@)[0]) == Some(
                    c.count as nat,
                ) && c.vowels@ == fields(value@)[1],
                Err(e) => if fields(value@).len() != 2 {
                    e == ParseErrorKind::CompoundSyllableCount(fields(value@).len() as usize)
                } else {
                    e is CompoundSyllableParse && (unsigned_value(fields(value@)[0]) is None
                        || unsigned_value(fields(value@)[0])->0 > u16::MAX)
                },
            },
    {
        let split = split_whitespace(value);
        proof {
            assert(split@.map_values(|x: String| x@).len() == split@.len());
        }
        if split.len() != 2 {
            return Err(ParseErrorKind::CompoundSyllableCount(split.len()));
        }
        proof {
            assert(split@.map_values(|x: String| x@)[0] == split@[0]@);
            assert(split@.map_values(|x: String| x@)[1] == split@[1]@);
        }
        match parse_u16(split[0].as_str()) {
            Ok(count) => Ok(CompoundSyllable { count, vowels: split[1].clone() }),
            Err(e) => Err(ParseErrorKind::CompoundSyllableParse(e)),
        }
    }
}

/* Parts of speech */

/// The part of speech that `s` names, ignoring case.
pub open spec fn part_of_speech(s: Seq<char>) -> Option<PartOfSpeech> {
    let l = spec_to_lowercase(s);
    if l == "noun"@ {
        Some(PartOfSpeech::Noun)
    } else if l == "verb"@ {
        Some(PartOfSpeech::Verb)
    } else if l == "adjective"@ {
        Some(PartOfSpeech::Adjective)
    } else if l == "determiner"@ {
        Some(PartOfSpeech::Determiner)
    } else if l == "adverb"@ {
        Some(PartOfSpeech::Adverb)
    } else if l == "pronoun"@ {
        Some(PartOfSpeech::Pronoun)
    } else if l == "preposition"@ {
        Some(PartOfSpeech::Preposition)
    } else if l == "conjunction"@ {
        Some(PartOfSpeech::Conjunction)
    } else if l == "interjection"@ {
        Some(PartOfSpeech::Interjection)
    } else {
        None
    }
}

impl PartOfSpeech {
    /// Read a part of speech, ignoring case.
    pub fn try_from(value: &str) -> (r: Result<PartOfSpeech, ParseErrorKind>)
        ensures
            match r {
                Ok(p) => part_of_speech(value@) == Some(p),
                Err(e) => part_of_speech(value@) is None && (e matches ParseErrorKind::PartOfSpeech(
                    x,
                ) && x@ == value@),
            },
    {
        let lower = to_lowercase(value);
        let l = chars_of(lower.as_str());
        let t = l.as_slice();
        if chars_are(t, "noun") {
            Ok(PartOfSpeech::Noun)
        } else if chars_are(t, "verb") {
            Ok(PartOfSpeech::Verb)
        } else if chars_are(t, "adjective") {
            Ok(PartOfSpeech::Adjective)
        } else if chars_are(t, "determiner") {
            Ok(PartOfSpeech::Determiner)
        } else if chars_are(t, "adverb") {
            Ok(PartOfSpeech::Adverb)
        } else if chars_are(t, "pronoun") {
            Ok(PartOfSpeech::Pronoun)
        } else if chars_are(t, "preposition") {
            Ok(PartOfSpeech::Preposition)
        } else if chars_are(t, "conjunction") {
            Ok(PartOfSpeech::Conjunction)
        } else if chars_are(t, "interjection") {
            Ok(PartOfSpeech::Interjection)
        } else {
            Err(ParseErrorKind::PartOfSpeech(value.to_owned()))
        }
    }
}

/* Rule types */

/// The rule type that `s` names, ignoring case.
pub open spec fn rule_type_of(s: Seq<char>) -> Option<RuleType> {
    let l = spec_to_lowercase(s);
    if l == "pfx"@ {
        Some(RuleType::Prefix)
    } else if l == "sfx"@ {
        Some(RuleType::Suffix)
    } else {
        None
    }
}

impl RuleType {
    /// Read `PFX` or `SFX`, ignoring case; the error is a message naming the
    /// value.
    pub fn try_from(value: &str) -> (r: Result<RuleType, String>)
        ensures
            match r {
                Ok(k) => rule_type_of(value@) == Some(k),
                Err(m) => rule_type_of(value@) is None && m@ == "unrecognized RuleType value '"@
                    + value@ + "'"@,
            },
    {
        let lower = to_lowercase(value);
        let l = chars_of(lower.as_str());
        if chars_are(l.as_slice(), "pfx") {
            Ok(RuleType::Prefix)
        } else if chars_are(l.as_slice(), "sfx") {
            Ok(RuleType::Suffix)
        } else {
            let mut m = String::from_str("unrecognized RuleType value '");
            m.append(value);
            m.append("'");
            Err(m)
        }
    }
}


/* Compound patterns */

/// The expression that a `CHECKCOMPOUNDPATTERN` row must match: the end of
/// the first word with an optional flag, blank space, the start of the
/// second word with an optional flag, and an optional replacement.
pub const COMPOUND_PATTERN_RE: &'static str = "^(?P<endchars>\\w+)(?:/(?P<endflags>\\w+))?\\s+(?P<beginchars>\\w+)(?:/(?P<beginflag>\\w+))?(?P<replacement>\\s\\w+)?$";

/// The compound pattern that the row `s` gives, from the groups that the
/// expression captures. The end flag is never read: the group that holds
/// it is named `endflags`, and the pattern asks for `endflag`.
pub open spec fn compound_pattern_of(s: Seq<char>) -> Option<CompoundPatternView> {
    match regex_captures(COMPOUND_PATTERN_RE@, s) {
        Some(g) => if g.len() >= 6 && g[1] is Some && g[3] is Some {
            Some(
                CompoundPatternView {
                    endchars: g[1]->0,
                    endflag: None,
                    beginchars: g[3]->0,
                    beginflag: g[4],
                    replacement: g[5],
                },
            )
        } else {
            None
        },
        None => None,
    }
}

impl CompoundPattern {
    /// Read a compound pattern row.
    pub fn try_from(value: &str) -> (r: Result<CompoundPattern, ParseErrorKind>)
        ensures
            match r {
                Ok(p) => regex_compiles(COMPOUND_PATTERN_RE@) && compound_pattern_of(value@) == Some(
                    pattern_view(p),
                ),
                Err(e) => if regex_compiles(COMPOUND_PATTERN_RE@) {
                    compound_pattern_of(value@) is None && e == ParseErrorKind::CompoundPattern
                } else {
                    e is Regex
                },
            },
    {
        let re = match ReWrapper::new(COMPOUND_PATTERN_RE) {
            Ok(re) => re,
            Err(e) => {
                return Err(ParseErrorKind::Regex(e));
            },
        };
        let caps = match re.captures(value) {
            Some(c) => c,
            None => {
                return Err(ParseErrorKind::CompoundPattern);
            },
        };
        proof {
            assert(caps@.map_values(|g: Option<String>| crate::re::opt_view(g)).len() == caps@.len());
        }
        if caps.len() < 6 {
            return Err(ParseErrorKind::CompoundPattern);
        }
        let ghost g = caps@.map_values(|g: Option<String>| crate::re::opt_view(g));
        proof {
            assert(g[1] == crate::re::opt_view(caps@[1]));
            assert(g[3] == crate::re::opt_view(caps@[3]));
            assert(g[4] == crate::re::opt_view(caps@[4]));
            assert(g[5] == crate::re::opt_view(caps@[5]));
        }
        let endchars = match &caps[1] {
            Some(x) => x.clone(),
            None => {
                return Err(ParseErrorKind::CompoundPattern);
            },
        };
        let beginchars = match &caps[3] {
            Some(x) => x.clone(),
            None => {
                return Err(ParseErrorKind::CompoundPattern);
            },
        };
        let beginflag = match &caps[4] {
            Some(x) => Some(x.clone()),
            None => None,
        };
        let replacement = match &caps[5] {
            Some(x) => Some(x.clone()),
            None => None,
        };
        Ok(CompoundPattern { endchars, endflag: None, beginchars, beginflag, replacement })
    }
}


/* Lists of flags */

/// Whether `s` has an even number of characters below 256.
pub open spec fn long_pairs_ok(s: Seq<char>) -> bool {
    s.len() % 2 == 0 && forall|i: int| 0 <= i < s.len() ==> (#[trigger] s[i] as u32) < 256
}

/// The flags that the pairs of characters of `s` write.
pub open spec fn long_flags(s: Seq<char>) -> Seq<u32> {
    Seq::new(s.len() / 2, |i: int| (s[2 * i] as u32 * 256 + s[2 * i + 1] as u32) as u32)
}

/// The parts of `s` between the characters `,`.
pub open spec fn split_commas(s: Seq<char>) -> Seq<Seq<char>>
    decreases s.len(),
{
    let i = crate::text::first_index(s, |c: char| c == ',');
    if i >= s.len() {
        seq![s]
    } else {
        proof {
            crate::text::lemma_first_index_bound(s, |c: char| c == ',');
        }
        seq![s.take(i as int)] + split_commas(s.skip(i as int + 1))
    }
}

/// Whether each of `parts` is a decimal number that fits a `u32`.
pub open spec fn numbers_ok(parts: Seq<Seq<char>>) -> bool {
    forall|i: int| 0 <= i < parts.len() ==> #[trigger] unsigned_value(parts[i]) is Some
        && unsigned_value(parts[i])->0 <= u32::MAX
}

/// The flags that the list `s` writes in flag type `ft`: one per
/// character, one per pair of characters, or decimal numbers separated by
/// commas.
pub open spec fn flags_of(ft: FlagType, s: Seq<char>) -> Option<Seq<u32>> {
    match ft {
        FlagType::Utf8 => Some(s.map_values(|c: char| c as u32)),
        FlagType::Ascii => if forall|i: int| 0 <= i < s.len() ==> (#[trigger] s[i] as u32) < 128 {
            Some(s.map_values(|c: char| c as u32))
        } else {
            None
        },
        FlagType::Long => if long_pairs_ok(s) {
            Some(long_flags(s))
        } else {
            None
        },
        FlagType::Number => if numbers_ok(split_commas(s)) {
            Some(split_commas(s).map_values(|p: Seq<char>| unsigned_value(p)->0 as u32))
        } else {
            None
        },
    }
}

/// The number of characters of one flag written in the flag type `ft`,
/// for the types whose flags have a fixed width.
pub open spec fn flag_width(ft: FlagType) -> nat {
    match ft {
        FlagType::Long => 2,
        _ => 1,
    }
}

/// The `k`-th piece of width [`flag_width`] of the list `s`.
pub open spec fn flag_piece(ft: FlagType, s: Seq<char>, k: int) -> Seq<char> {
    s.subrange(k * flag_width(ft), k * flag_width(ft) + flag_width(ft))
}

proof fn lemma_pair_index(i: int, n: int)
    requires
        0 <= i < n,
        n % 2 == 0,
    ensures
        0 <= i / 2 < n / 2,
        i == (i / 2) * 2 + i % 2,
        0 <= i % 2 < 2,
{
    assert(0 <= i / 2 < n / 2) by (nonlinear_arith)
        requires
            0 <= i < n,
            n % 2 == 0,
    ;
}

proof fn lemma_pair_bound(k: int, n: int)
    requires
        0 <= k < n / 2,
        n >= 0,
    ensures
        k * 2 + 2 <= n,
{
    assert(k * 2 + 2 <= n) by (nonlinear_arith)
        requires
            0 <= k < n / 2,
            n >= 0,
    ;
}

/// Reading a list of flags agrees with reading each flag alone. For a flag
/// type whose flags have a fixed width (one character, or two for `long`),
/// the list reads exactly when it splits into pieces of that width each of
/// which reads as a flag, and it then gives, in order, the flag of each
/// piece. For numbers the same holds of the pieces between commas.
pub proof fn law_flags_agree(ft: FlagType, s: Seq<char>)
    ensures
        ft !is Number ==> (flags_of(ft, s) is Some <==> (s.len() % flag_width(ft) == 0 && forall|k: int|
            0 <= k < s.len() / flag_width(ft) ==> flag_of(ft, #[trigger] flag_piece(ft, s, k)) is Some)),
        ft !is Number ==> (flags_of(ft, s) matches Some(v) ==> v.len() == s.len() / flag_width(ft) && forall|k: int|
            0 <= k < v.len() ==> v[k] == flag_of(ft, #[trigger] flag_piece(ft, s, k))->0),
        ft is Number ==> (flags_of(ft, s) is Some <==> forall|k: int|
            0 <= k < split_commas(s).len() ==> flag_of(ft, #[trigger] split_commas(s)[k]) is Some),
        ft is Number ==> (flags_of(ft, s) matches Some(v) ==> v.len() == split_commas(s).len() && forall|k: int|
            0 <= k < v.len() ==> v[k] == flag_of(ft, #[trigger] split_commas(s)[k])->0),
{
    match ft {
        FlagType::Utf8 | FlagType::Ascii => {
            assert forall|k: int| 0 <= k < s.len() implies (#[trigger] flag_piece(ft, s, k)).len() == 1
                && flag_piece(ft, s, k)[0] == s[k] by {}
            if ft is Ascii {
                if forall|k: int| 0 <= k < s.len() / flag_width(ft) ==> flag_of(ft, #[trigger] flag_piece(ft, s, k)) is Some {
                    assert forall|i: int| 0 <= i < s.len() implies (#[trigger] s[i] as u32) < 128 by {
                        assert(flag_of(ft, flag_piece(ft, s, i)) is Some);
                    }
                }
            }
        },
        FlagType::Long => {
            assert forall|k: int| 0 <= k < s.len() / 2 implies (#[trigger] flag_piece(ft, s, k)).len() == 2
                && flag_piece(ft, s, k)[0] == s[2 * k] && flag_piece(ft, s, k)[1] == s[2 * k + 1] by {
                lemma_pair_bound(k, s.len() as int);
            }
            if s.len() % 2 == 0 && forall|k: int| 0 <= k < s.len() / 2 ==> flag_of(ft, #[trigger] flag_piece(ft, s, k)) is Some {
                assert forall|i: int| 0 <= i < s.len() implies (#[trigger] s[i] as u32) < 256 by {
                    lemma_pair_index(i, s.len() as int);
                    let k = i / 2;
                    assert(flag_of(ft, flag_piece(ft, s, k)) is Some);
                    if i % 2 == 0 {
                        assert(s[i] == flag_piece(ft, s, k)[0]);
                    } else {
                        assert(s[i] == flag_piece(ft, s, k)[1]);
                    }
                }
            }
            if long_pairs_ok(s) {
                assert forall|k: int| 0 <= k < s.len() / 2 implies flag_of(ft, #[trigger] flag_piece(ft, s, k)) is Some by {
                    lemma_pair_bound(k, s.len() as int);
                    assert((s[2 * k] as u32) < 256 && (s[2 * k + 1] as u32) < 256);
                }
            }
        },
        FlagType::Number => {},
    }
}

impl FlagType {
    /// Read a list of flags written in this flag type.
    pub fn parse_str(&self, s: &str) -> (r: Result<Vec<u32>, ParseErrorKind>)
        ensures
            match flags_of(*self, s@) {
                Some(v) => r matches Ok(x) && x@ == v,
                None => r matches Err(e) && match *self {
                    FlagType::Number => e is Int,
                    _ => e == ParseErrorKind::FlagParse(*self),
                },
            },
    {
        let t = chars_of(s);
        let mut out: Vec<u32> = Vec::new();
        match self {
            FlagType::Utf8 | FlagType::Ascii => {
                let mut i: usize = 0;
                while i < t.len()
                    invariant
                        t@ == s@,
                        i <= t@.len(),
                        out@ == s@.take(i as int).map_values(|c: char| c as u32),
                        *self == FlagType::Ascii ==> forall|k: int| 0 <= k < i ==> (#[trigger] s@[k] as u32) < 128,
                        *self is Utf8 || *self is Ascii,
                    decreases t@.len() - i,
                {
                    let c = t[i];
                    if *self == FlagType::Ascii && (c as u32) >= 128 {
                        return Err(ParseErrorKind::FlagParse(FlagType::Ascii));
                    }
                    out.push(c as u32);
                    proof {
                        assert(s@.take(i + 1).map_values(|c: char| c as u32) =~= s@.take(i as int).map_values(
                            |c: char| c as u32,
                        ).push(c as u32));
                    }
                    i += 1;
                }
                proof {
                    assert(s@.take(i as int) =~= s@);
                }
                Ok(out)
            },
            FlagType::Long => {
                if t.len() % 2 != 0 {
                    return Err(ParseErrorKind::FlagParse(FlagType::Long));
                }
                let mut i: usize = 0;
                while i < t.len()
                    invariant
                        *self == FlagType::Long,
                        t@ == s@,
                        t@.len() % 2 == 0,
                        i % 2 == 0,
                        i <= t@.len(),
                        out@.len() == i / 2,
                        forall|k: int| 0 <= k < i ==> (#[trigger] s@[k] as u32) < 256,
                        forall|k: int| 0 <= k < out@.len() ==> #[trigger] out@[k] == (s@[2 * k] as u32 * 256
                            + s@[2 * k + 1] as u32) as u32,
                    decreases t@.len() - i,
                {
                    let a = t[i] as u32;
                    let b = t[i + 1] as u32;
                    if a >= 256 || b >= 256 {
                        proof {
                            assert(s@[i as int] as u32 == a);
                            assert(s@[i + 1] as u32 == b);
                            if a >= 256 {
                                assert(!((s@[i as int] as u32) < 256));
                            } else {
                                assert(!((s@[i + 1] as u32) < 256));
                            }
                            assert(!long_pairs_ok(s@));
                        }
                        return Err(ParseErrorKind::FlagParse(FlagType::Long));
                    }
                    out.push(a * 256 + b);
                    i += 2;
                }
                proof {
                    assert(out@ =~= long_flags(s@));
                }
                Ok(out)
            },
            FlagType::Number => {
                let parts = split_commas_exec(s);
                let ghost pv = parts@.map_values(|x: String| x@);
                let mut i: usize = 0;
                while i < parts.len()
                    invariant
                        *self == FlagType::Number,
                        pv == parts@.map_values(|x: String| x@),
                        pv == split_commas(s@),
                        i <= parts@.len(),
                        forall|k: int| 0 <= k < i ==> #[trigger] unsigned_value(pv[k]) is Some
                            && unsigned_value(pv[k])->0 <= u32::MAX,
                        out@ == pv.take(i as int).map_values(|p: Seq<char>| unsigned_value(p)->0 as u32),
                    decreases parts@.len() - i,
                {
                    proof {
                        assert(pv[i as int] == parts@[i as int]@);
                    }
                    match parse_u32(parts[i].as_str()) {
                        Ok(v) => {
                            out.push(v);
                            proof {
                                assert(pv.take(i + 1).map_values(|p: Seq<char>| unsigned_value(p)->0 as u32)
                                    =~= pv.take(i as int).map_values(|p: Seq<char>| unsigned_value(p)->0 as u32).push(v));
                            }
                        },
                        Err(e) => {
                            proof {
                                assert(!(unsigned_value(pv[i as int]) is Some && unsigned_value(pv[i as int])->0
                                    <= u32::MAX));
                                assert(!numbers_ok(split_commas(s@)));
                            }
                            return Err(ParseErrorKind::Int(e));
                        },
                    }
                    i += 1;
                }
                proof {
                    assert(pv.take(i as int) =~= pv);
                }
                Ok(out)
            },
        }
    }
}

/// Split `s` at each `,`.
fn split_commas_exec(s: &str) -> (r: Vec<String>)
    ensures
        r@.map_values(|x: String| x@) == split_commas(s@),
    decreases s@.len(),
{
    let t = chars_of(s);
    let mut k: usize = 0;
    while k < t.len() && t[k] != ','
        invariant
            t@ == s@,
            k <= t@.len(),
            forall|m: int| 0 <= m < k ==> t@[m] != ',',
        decreases t@.len() - k,
    {
        k += 1;
    }
    let ghost comma = |c: char| c == ',';
    proof {
        crate::text::lemma_first_index_bound(s@, comma);
        if crate::text::first_index(s@, comma) < k {
            assert(s@[crate::text::first_index(s@, comma) as int] == ',');
        }
        if k < t@.len() {
            if crate::text::first_index(s@, comma) > k {
                assert(!comma(s@[k as int]));
            }
        }
        assert(crate::text::first_index(s@, comma) == k);
    }
    let mut out: Vec<String> = Vec::new();
    if k >= t.len() {
        out.push(string_of(t.as_slice()));
        proof {
            assert(out@.map_values(|x: String| x@) =~= seq![s@]);
        }
        out
    } else {
        let head = crate::text::string_from(t.as_slice(), 0, k);
        let rest = crate::text::string_from(t.as_slice(), k + 1, t.len());
        proof {
            assert(t@.subrange(0, k as int) =~= s@.take(k as int));
            assert(t@.subrange(k + 1, t@.len() as int) =~= s@.skip(k + 1));
        }
        let mut tail = split_commas_exec(rest.as_str());
        let ghost tv = tail@.map_values(|x: String| x@);
        out.push(head);
        out.append(&mut tail);
        proof {
            assert(out@.map_values(|x: String| x@) =~= seq![s@.take(k as int)] + tv);
        }
        out
    }
}

} // verus!

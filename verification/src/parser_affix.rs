//! Parsing an affix file into its entries.
//!
//! Each line of an affix file starts with a key, followed by the content of
//! the entry; tables are a header line giving the number of rows, followed
//! by that many rows, each starting with the same key. Blank lines and
//! comments between entries are skipped.

pub mod entries;
pub mod lines;
pub mod node;
pub mod types;

use vstd::prelude::*;
use vstd::string::StrSliceExecFns;

use self::entries::{
    afx_table_entry, chars_entry, class_of, conv_table_entry, encoding_entry, err_line,
    flag_type_entry, keys_entry, map_table_entry, outcome, pat_table_entry, phone_table_entry,
    str_table_entry, syllable_entry, text_entry, u16_entry, u8_entry, unit_entry, kind_entry,
    lemma_table_rows, Entry, ErrClass, Kind,
};
use self::lines::{
    lemma_line_end, lemma_rows_from, lemma_split_at_key, line_end, line_end_at, split_at_key,
    split_line, LineEnd,
};
pub use self::node::{key_name, AffixNode, NodeValue, NodeView};
pub use self::types::{ParsedRule, ParsedRuleGroup};
use crate::affix::RuleType;
use crate::error::{ParseError, ParseErrorKind};
use crate::text::{chars_of, string_from};

verus! {

/// What the key with index `k` reads at `pos`.
pub open spec fn entry_at(t: Seq<char>, pos: nat, k: nat) -> Option<Entry> {
    kind_entry(key_kind(k), t, pos, key_name(k))
}

/// The kind of each key.
pub open spec fn key_kind(k: nat) -> Kind {
    if k == 0 {
        Kind::Comment
    } else if k == 1 {
        Kind::Encoding
    } else if k == 2 {
        Kind::FlagType
    } else if k == 3 {
        Kind::Bool
    } else if k == 4 {
        Kind::Str
    } else if k == 5 {
        Kind::Chars
    } else if k == 6 {
        Kind::StrTable
    } else if k == 7 {
        Kind::StrTable
    } else if k == 8 {
        Kind::Keys
    } else if k == 9 {
        Kind::Str
    } else if k == 10 {
        Kind::Str
    } else if k == 11 {
        Kind::U16
    } else if k == 12 {
        Kind::U16
    } else if k == 13 {
        Kind::U8
    } else if k == 14 {
        Kind::Bool
    } else if k == 15 {
        Kind::Bool
    } else if k == 16 {
        Kind::Bool
    } else if k == 17 {
        Kind::ConvTable
    } else if k == 18 {
        Kind::MapTable
    } else if k == 19 {
        Kind::PhoneTable
    } else if k == 20 {
        Kind::Str
    } else if k == 21 {
        Kind::Bool
    } else if k == 22 {
        Kind::StrTable
    } else if k == 23 {
        Kind::StrTable
    } else if k == 24 {
        Kind::U16
    } else if k == 25 {
        Kind::Str
    } else if k == 26 {
        Kind::Str
    } else if k == 27 {
        Kind::Str
    } else if k == 28 {
        Kind::Str
    } else if k == 29 {
        Kind::Str
    } else if k == 30 {
        Kind::Str
    } else if k == 31 {
        Kind::Str
    } else if k == 32 {
        Kind::Bool
    } else if k == 33 {
        Kind::Str
    } else if k == 34 {
        Kind::U16
    } else if k == 35 {
        Kind::Bool
    } else if k == 36 {
        Kind::Bool
    } else if k == 37 {
        Kind::Bool
    } else if k == 38 {
        Kind::Bool
    } else if k == 39 {
        Kind::Bool
    } else if k == 40 {
        Kind::PatTable
    } else if k == 41 {
        Kind::Str
    } else if k == 42 {
        Kind::Syllable
    } else if k == 43 {
        Kind::Str
    } else if k == 44 {
        Kind::AfxTable(RuleType::Prefix)
    } else if k == 45 {
        Kind::AfxTable(RuleType::Suffix)
    } else if k == 46 {
        Kind::Str
    } else if k == 47 {
        Kind::Str
    } else if k == 48 {
        Kind::Bool
    } else if k == 49 {
        Kind::Str
    } else if k == 50 {
        Kind::ConvTable
    } else if k == 51 {
        Kind::ConvTable
    } else if k == 52 {
        Kind::Str
    } else if k == 53 {
        Kind::Str
    } else if k == 54 {
        Kind::Str
    } else if k == 55 {
        Kind::Str
    } else if k == 56 {
        Kind::Str
    } else if k == 57 {
        Kind::Bool
    } else if k == 58 {
        Kind::Str
    } else if k == 59 {
        Kind::Str
    } else {
        Kind::Str
    }
}

/// The key with index `k`.
pub fn key_str(k: usize) -> (r: &'static str)
    requires
        k < 61,
    ensures
        r@ == key_name(k as nat),
{
    match k {
        0 => "#",
        1 => "SET",
        2 => "FLAG",
        3 => "COMPLEXPREFIXES",
        4 => "LANG",
        5 => "IGNORE",
        6 => "AF",
        7 => "AM",
        8 => "KEY",
        9 => "TRY",
        10 => "NOSUGGEST",
        11 => "MAXCPDSUGS",
        12 => "MAXNGRAMSUGS",
        13 => "MAXDIFF",
        14 => "ONLYMAXDIFF",
        15 => "NOSPLITSUGS",
        16 => "SUGSWITHDOTS",
        17 => "REP",
        18 => "MAP",
        19 => "PHONE",
        20 => "WARN",
        21 => "FORBIDWARN",
        22 => "BREAK",
        23 => "COMPOUNDRULE",
        24 => "COMPOUNDMIN",
        25 => "COMPOUNDFLAG",
        26 => "COMPOUNDBEGIN",
        27 => "COMPOUNDLAST",
        28 => "COMPOUNDMIDDLE",
        29 => "ONLYINCOMPOUND",
        30 => "COMPOUNDPERMITFLAG",
        31 => "COMPOUNDFORBIDFLAG",
        32 => "COMPOUNDMORESUFFIXES",
        33 => "COMPOUNDROOT",
        34 => "COMPOUNDWORDMAX",
        35 => "CHECKCOMPOUNDDUP",
        36 => "CHECKCOMPOUNDREP",
        37 => "CHECKCOMPOUNDCASE",
        38 => "CHECKCOMPOUNDTRIPLE",
        39 => "SIMPLIFIEDTRIPLE",
        40 => "CHECKCOMPOUNDPATTERN",
        41 => "FORCEUCASE",
        42 => "COMPOUNDSYLLABLE",
        43 => "SYLLABLENUM",
        44 => "PFX",
        45 => "SFX",
        46 => "CIRCUMFIX",
        47 => "FORBIDDENWORD",
        48 => "FULLSTRIP",
        49 => "KEEPCASE",
        50 => "ICONV",
        51 => "OCONV",
        52 => "LEMMA_PRESENT",
        53 => "NEEDAFFIX",
        54 => "PSEUDOROOT",
        55 => "SUBSTANDARD",
        56 => "WORDCHARS",
        57 => "CHECKSHARPS",
        58 => "NAME",
        59 => "HOME",
        _ => "VERSION",
    }
}

/// Read the entry of the key with index `k` at `pos`.
#[verifier::rlimit(60)]
pub fn parse_entry(t: &[char], pos: usize, k: usize, key: &[char]) -> (r: Result<
    Option<(AffixNode, usize, u32)>,
    ParseError,
>)
    requires
        k < 61,
        key@ == key_name(k as nat),
        pos <= t@.len(),
    ensures
        outcome(entry_at(t@, pos as nat, k as nat), r, |n: AffixNode| n@.value),
        r matches Ok(Some((n, _, _))) ==> n@.key == k,
{
    proof {
        lemma_keys_nonempty(k as nat);
    }
    match k {
        0 => match unit_entry(t, pos, key, false) {
            Ok(Some((_x, e, n))) => Ok(Some((AffixNode::Comment, e, n))),
            Ok(None) => Ok(None),
            Err(err) => Err(err),
        },
        1 => match encoding_entry(t, pos, key) {
            Ok(Some((x, e, n))) => Ok(Some((AffixNode::Encoding(x), e, n))),
            Ok(None) => Ok(None),
            Err(err) => Err(err),
        },
        2 => match flag_type_entry(t, pos, key) {
            Ok(Some((x, e, n))) => Ok(Some((AffixNode::FlagType(x), e, n))),
            Ok(None) => Ok(None),
            Err(err) => Err(err),
        },
        3 => match unit_entry(t, pos, key, true) {
            Ok(Some((_x, e, n))) => Ok(Some((AffixNode::ComplexPrefixes, e, n))),
            Ok(None) => Ok(None),
            Err(err) => Err(err),
        },
        4 => match text_entry(t, pos, key) {
            Ok(Some((x, e, n))) => Ok(Some((AffixNode::Language(x), e, n))),
            Ok(None) => Ok(None),
            Err(err) => Err(err),
        },
        5 => match chars_entry(t, pos, key) {
            Ok(Some((x, e, n))) => Ok(Some((AffixNode::IgnoreChars(x), e, n))),
            Ok(None) => Ok(None),
            Err(err) => Err(err),
        },
        6 => match str_table_entry(t, pos, key) {
            Ok(Some((x, e, n))) => Ok(Some((AffixNode::AffixAlias(x), e, n))),
            Ok(None) => Ok(None),
            Err(err) => Err(err),
        },
        7 => match str_table_entry(t, pos, key) {
            Ok(Some((x, e, n))) => Ok(Some((AffixNode::MorphAlias(x), e, n))),
            Ok(None) => Ok(None),
            Err(err) => Err(err),
        },
        8 => match keys_entry(t, pos, key) {
            Ok(Some((x, e, n))) => Ok(Some((AffixNode::NeighborKeys(x), e, n))),
            Ok(None) => Ok(None),
            Err(err) => Err(err),
        },
        9 => match text_entry(t, pos, key) {
            Ok(Some((x, e, n))) => Ok(Some((AffixNode::TryCharacters(x), e, n))),
            Ok(None) => Ok(None),
            Err(err) => Err(err),
        },
        10 => match text_entry(t, pos, key) {
            Ok(Some((x, e, n))) => Ok(Some((AffixNode::NoSuggestFlag(x), e, n))),
            Ok(None) => Ok(None),
            Err(err) => Err(err),
        },
        11 => match u16_entry(t, pos, key) {
            Ok(Some((x, e, n))) => Ok(Some((AffixNode::CompoundSugMax(x), e, n))),
            Ok(None) => Ok(None),
            Err(err) => Err(err),
        },
        12 => match u16_entry(t, pos, key) {
            Ok(Some((x, e, n))) => Ok(Some((AffixNode::NGramSugMax(x), e, n))),
            Ok(None) => Ok(None),
            Err(err) => Err(err),
        },
        13 => match u8_entry(t, pos, key) {
            Ok(Some((x, e, n))) => Ok(Some((AffixNode::NGramDiffMax(x), e, n))),
            Ok(None) => Ok(None),
            Err(err) => Err(err),
        },
        14 => match unit_entry(t, pos, key, true) {
            Ok(Some((_x, e, n))) => Ok(Some((AffixNode::NGramLimitToDiffMax, e, n))),
            Ok(None) => Ok(None),
            Err(err) => Err(err),
        },
        15 => match unit_entry(t, pos, key, true) {
            Ok(Some((_x, e, n))) => Ok(Some((AffixNode::NoSplitSuggestions, e, n))),
            Ok(None) => Ok(None),
            Err(err) => Err(err),
        },
        16 => match unit_entry(t, pos, key, true) {
            Ok(Some((_x, e, n))) => Ok(Some((AffixNode::KeepTermDots, e, n))),
            Ok(None) => Ok(None),
            Err(err) => Err(err),
        },
        17 => match conv_table_entry(t, pos, key) {
            Ok(Some((x, e, n))) => Ok(Some((AffixNode::Replacement(x), e, n))),
            Ok(None) => Ok(None),
            Err(err) => Err(err),
        },
        18 => match map_table_entry(t, pos, key) {
            Ok(Some((x, e, n))) => Ok(Some((AffixNode::Mapping(x), e, n))),
            Ok(None) => Ok(None),
            Err(err) => Err(err),
        },
        19 => match phone_table_entry(t, pos, key) {
            Ok(Some((x, e, n))) => Ok(Some((AffixNode::Phonetic(x), e, n))),
            Ok(None) => Ok(None),
            Err(err) => Err(err),
        },
        20 => match text_entry(t, pos, key) {
            Ok(Some((x, e, n))) => Ok(Some((AffixNode::WarnRareFlag(x), e, n))),
            Ok(None) => Ok(None),
            Err(err) => Err(err),
        },
        21 => match unit_entry(t, pos, key, true) {
            Ok(Some((_x, e, n))) => Ok(Some((AffixNode::ForbidWarnWords, e, n))),
            Ok(None) => Ok(None),
            Err(err) => Err(err),
        },
        22 => match str_table_entry(t, pos, key) {
            Ok(Some((x, e, n))) => Ok(Some((AffixNode::BreakSeparator(x), e, n))),
            Ok(None) => Ok(None),
            Err(err) => Err(err),
        },
        23 => match str_table_entry(t, pos, key) {
            Ok(Some((x, e, n))) => Ok(Some((AffixNode::CompoundRule(x), e, n))),
            Ok(None) => Ok(None),
            Err(err) => Err(err),
        },
        24 => match u16_entry(t, pos, key) {
            Ok(Some((x, e, n))) => Ok(Some((AffixNode::CompoundMinLen(x), e, n))),
            Ok(None) => Ok(None),
            Err(err) => Err(err),
        },
        25 => match text_entry(t, pos, key) {
            Ok(Some((x, e, n))) => Ok(Some((AffixNode::CompoundFlag(x), e, n))),
            Ok(None) => Ok(None),
            Err(err) => Err(err),
        },
        26 => match text_entry(t, pos, key) {
            Ok(Some((x, e, n))) => Ok(Some((AffixNode::CompoundBeginFlag(x), e, n))),
            Ok(None) => Ok(None),
            Err(err) => Err(err),
        },
        27 => match text_entry(t, pos, key) {
            Ok(Some((x, e, n))) => Ok(Some((AffixNode::CompoundEndFlag(x), e, n))),
            Ok(None) => Ok(None),
            Err(err) => Err(err),
        },
        28 => match text_entry(t, pos, key) {
            Ok(Some((x, e, n))) => Ok(Some((AffixNode::CompoundMiddleFlag(x), e, n))),
            Ok(None) => Ok(None),
            Err(err) => Err(err),
        },
        29 => match text_entry(t, pos, key) {
            Ok(Some((x, e, n))) => Ok(Some((AffixNode::CompoundOnlyFlag(x), e, n))),
            Ok(None) => Ok(None),
            Err(err) => Err(err),
        },
        30 => match text_entry(t, pos, key) {
            Ok(Some((x, e, n))) => Ok(Some((AffixNode::CompoundPermitFlag(x), e, n))),
            Ok(None) => Ok(None),
            Err(err) => Err(err),
        },
        31 => match text_entry(t, pos, key) {
            Ok(Some((x, e, n))) => Ok(Some((AffixNode::CompoundForbidFlag(x), e, n))),
            Ok(None) => Ok(None),
            Err(err) => Err(err),
        },
        32 => match unit_entry(t, pos, key, true) {
            Ok(Some((_x, e, n))) => Ok(Some((AffixNode::CompoundMoreSuffixes, e, n))),
            Ok(None) => Ok(None),
            Err(err) => Err(err),
        },
        33 => match text_entry(t, pos, key) {
            Ok(Some((x, e, n))) => Ok(Some((AffixNode::CompoundRootFlag(x), e, n))),
            Ok(None) => Ok(None),
            Err(err) => Err(err),
        },
        34 => match u16_entry(t, pos, key) {
            Ok(Some((x, e, n))) => Ok(Some((AffixNode::CompoundWordMax(x), e, n))),
            Ok(None) => Ok(None),
            Err(err) => Err(err),
        },
        35 => match unit_entry(t, pos, key, true) {
            Ok(Some((_x, e, n))) => Ok(Some((AffixNode::CompoundForbidDup, e, n))),
            Ok(None) => Ok(None),
            Err(err) => Err(err),
        },
        36 => match unit_entry(t, pos, key, true) {
            Ok(Some((_x, e, n))) => Ok(Some((AffixNode::CompoundForbidRepeat, e, n))),
            Ok(None) => Ok(None),
            Err(err) => Err(err),
        },
        37 => match unit_entry(t, pos, key, true) {
            Ok(Some((_x, e, n))) => Ok(Some((AffixNode::CompoundCheckCase, e, n))),
            Ok(None) => Ok(None),
            Err(err) => Err(err),
        },
        38 => match unit_entry(t, pos, key, true) {
            Ok(Some((_x, e, n))) => Ok(Some((AffixNode::CompoundCheckTriple, e, n))),
            Ok(None) => Ok(None),
            Err(err) => Err(err),
        },
        39 => match unit_entry(t, pos, key, true) {
            Ok(Some((_x, e, n))) => Ok(Some((AffixNode::CompoundSimplifyTriple, e, n))),
            Ok(None) => Ok(None),
            Err(err) => Err(err),
        },
        40 => match pat_table_entry(t, pos, key) {
            Ok(Some((x, e, n))) => Ok(Some((AffixNode::CompoundForbidPats(x), e, n))),
            Ok(None) => Ok(None),
            Err(err) => Err(err),
        },
        41 => match text_entry(t, pos, key) {
            Ok(Some((x, e, n))) => Ok(Some((AffixNode::CompoundForceUpFlag(x), e, n))),
            Ok(None) => Ok(None),
            Err(err) => Err(err),
        },
        42 => match syllable_entry(t, pos, key) {
            Ok(Some((x, e, n))) => Ok(Some((AffixNode::CompoundSyllable(x), e, n))),
            Ok(None) => Ok(None),
            Err(err) => Err(err),
        },
        43 => match text_entry(t, pos, key) {
            Ok(Some((x, e, n))) => Ok(Some((AffixNode::SyllableNum(x), e, n))),
            Ok(None) => Ok(None),
            Err(err) => Err(err),
        },
        44 => match afx_table_entry(t, pos, key, RuleType::Prefix) {
            Ok(Some((x, e, n))) => Ok(Some((AffixNode::Prefix(x), e, n))),
            Ok(None) => Ok(None),
            Err(err) => Err(err),
        },
        45 => match afx_table_entry(t, pos, key, RuleType::Suffix) {
            Ok(Some((x, e, n))) => Ok(Some((AffixNode::Suffix(x), e, n))),
            Ok(None) => Ok(None),
            Err(err) => Err(err),
        },
        46 => match text_entry(t, pos, key) {
            Ok(Some((x, e, n))) => Ok(Some((AffixNode::AfxCircumfixFlag(x), e, n))),
            Ok(None) => Ok(None),
            Err(err) => Err(err),
        },
        47 => match text_entry(t, pos, key) {
            Ok(Some((x, e, n))) => Ok(Some((AffixNode::ForbiddenWordFlag(x), e, n))),
            Ok(None) => Ok(None),
            Err(err) => Err(err),
        },
        48 => match unit_entry(t, pos, key, true) {
            Ok(Some((_x, e, n))) => Ok(Some((AffixNode::AfxFullStrip, e, n))),
            Ok(None) => Ok(None),
            Err(err) => Err(err),
        },
        49 => match text_entry(t, pos, key) {
            Ok(Some((x, e, n))) => Ok(Some((AffixNode::AfxKeepCaseFlag(x), e, n))),
            Ok(None) => Ok(None),
            Err(err) => Err(err),
        },
        50 => match conv_table_entry(t, pos, key) {
            Ok(Some((x, e, n))) => Ok(Some((AffixNode::AfxInputConversion(x), e, n))),
            Ok(None) => Ok(None),
            Err(err) => Err(err),
        },
        51 => match conv_table_entry(t, pos, key) {
            Ok(Some((x, e, n))) => Ok(Some((AffixNode::AfxOutputConversion(x), e, n))),
            Ok(None) => Ok(None),
            Err(err) => Err(err),
        },
        52 => match text_entry(t, pos, key) {
            Ok(Some((x, e, n))) => Ok(Some((AffixNode::AfxLemmaPresentFlag(x), e, n))),
            Ok(None) => Ok(None),
            Err(err) => Err(err),
        },
        53 => match text_entry(t, pos, key) {
            Ok(Some((x, e, n))) => Ok(Some((AffixNode::AfxNeededFlag(x), e, n))),
            Ok(None) => Ok(None),
            Err(err) => Err(err),
        },
        54 => match text_entry(t, pos, key) {
            Ok(Some((x, e, n))) => Ok(Some((AffixNode::AfxPseudoRootFlag(x), e, n))),
            Ok(None) => Ok(None),
            Err(err) => Err(err),
        },
        55 => match text_entry(t, pos, key) {
            Ok(Some((x, e, n))) => Ok(Some((AffixNode::AfxSubstandardFlag(x), e, n))),
            Ok(None) => Ok(None),
            Err(err) => Err(err),
        },
        56 => match text_entry(t, pos, key) {
            Ok(Some((x, e, n))) => Ok(Some((AffixNode::AfxWordChars(x), e, n))),
            Ok(None) => Ok(None),
            Err(err) => Err(err),
        },
        57 => match unit_entry(t, pos, key, true) {
            Ok(Some((_x, e, n))) => Ok(Some((AffixNode::AfxCheckSharps, e, n))),
            Ok(None) => Ok(None),
            Err(err) => Err(err),
        },
        58 => match text_entry(t, pos, key) {
            Ok(Some((x, e, n))) => Ok(Some((AffixNode::Name(x), e, n))),
            Ok(None) => Ok(None),
            Err(err) => Err(err),
        },
        59 => match text_entry(t, pos, key) {
            Ok(Some((x, e, n))) => Ok(Some((AffixNode::HomePage(x), e, n))),
            Ok(None) => Ok(None),
            Err(err) => Err(err),
        },
        _ => match text_entry(t, pos, key) {
            Ok(Some((x, e, n))) => Ok(Some((AffixNode::Version(x), e, n))),
            Ok(None) => Ok(None),
            Err(err) => Err(err),
        },
    }
}

/// Every key has at least one character.
pub proof fn lemma_keys_nonempty(k: nat)
    requires
        k < 61,
    ensures
        key_name(k).len() > 0,
{
    reveal_strlit("#");
    reveal_strlit("SET");
    reveal_strlit("FLAG");
    reveal_strlit("COMPLEXPREFIXES");
    reveal_strlit("LANG");
    reveal_strlit("IGNORE");
    reveal_strlit("AF");
    reveal_strlit("AM");
    reveal_strlit("KEY");
    reveal_strlit("TRY");
    reveal_strlit("NOSUGGEST");
    reveal_strlit("MAXCPDSUGS");
    reveal_strlit("MAXNGRAMSUGS");
    reveal_strlit("MAXDIFF");
    reveal_strlit("ONLYMAXDIFF");
    reveal_strlit("NOSPLITSUGS");
    reveal_strlit("SUGSWITHDOTS");
    reveal_strlit("REP");
    reveal_strlit("MAP");
    reveal_strlit("PHONE");
    reveal_strlit("WARN");
    reveal_strlit("FORBIDWARN");
    reveal_strlit("BREAK");
    reveal_strlit("COMPOUNDRULE");
    reveal_strlit("COMPOUNDMIN");
    reveal_strlit("COMPOUNDFLAG");
    reveal_strlit("COMPOUNDBEGIN");
    reveal_strlit("COMPOUNDLAST");
    reveal_strlit("COMPOUNDMIDDLE");
    reveal_strlit("ONLYINCOMPOUND");
    reveal_strlit("COMPOUNDPERMITFLAG");
    reveal_strlit("COMPOUNDFORBIDFLAG");
    reveal_strlit("COMPOUNDMORESUFFIXES");
    reveal_strlit("COMPOUNDROOT");
    reveal_strlit("COMPOUNDWORDMAX");
    reveal_strlit("CHECKCOMPOUNDDUP");
    reveal_strlit("CHECKCOMPOUNDREP");
    reveal_strlit("CHECKCOMPOUNDCASE");
    reveal_strlit("CHECKCOMPOUNDTRIPLE");
    reveal_strlit("SIMPLIFIEDTRIPLE");
    reveal_strlit("CHECKCOMPOUNDPATTERN");
    reveal_strlit("FORCEUCASE");
    reveal_strlit("COMPOUNDSYLLABLE");
    reveal_strlit("SYLLABLENUM");
    reveal_strlit("PFX");
    reveal_strlit("SFX");
    reveal_strlit("CIRCUMFIX");
    reveal_strlit("FORBIDDENWORD");
    reveal_strlit("FULLSTRIP");
    reveal_strlit("KEEPCASE");
    reveal_strlit("ICONV");
    reveal_strlit("OCONV");
    reveal_strlit("LEMMA_PRESENT");
    reveal_strlit("NEEDAFFIX");
    reveal_strlit("PSEUDOROOT");
    reveal_strlit("SUBSTANDARD");
    reveal_strlit("WORDCHARS");
    reveal_strlit("CHECKSHARPS");
    reveal_strlit("NAME");
    reveal_strlit("HOME");
    reveal_strlit("VERSION");
}

/// The index of the first key, from index `k` on, that the text at `pos`
/// starts with.
pub open spec fn first_key_from(t: Seq<char>, pos: nat, k: nat) -> Option<nat>
    decreases 61 - k,
{
    if k >= 61 {
        None
    } else if split_at_key(t, pos, key_name(k)) is Some {
        Some(k)
    } else {
        first_key_from(t, pos, k + 1)
    }
}

/// The keys, each as its characters.
pub fn key_chars() -> (r: Vec<Vec<char>>)
    ensures
        r@.len() == 61,
        forall|k: int| 0 <= k < 61 ==> (#[trigger] r@[k])@ == key_name(k as nat),
{
    let mut v: Vec<Vec<char>> = Vec::new();
    let mut k: usize = 0;
    while k < 61
        invariant
            k <= 61,
            v@.len() == k,
            forall|m: int| 0 <= m < k ==> (#[trigger] v@[m])@ == key_name(m as nat),
        decreases 61 - k,
    {
        v.push(chars_of(key_str(k)));
        k += 1;
    }
    v
}

/// The index of the first key that the text at `pos` starts with.
pub fn find_key(t: &[char], pos: usize, keys: &Vec<Vec<char>>) -> (r: Option<usize>)
    requires
        pos <= t@.len(),
        keys@.len() == 61,
        forall|k: int| 0 <= k < 61 ==> (#[trigger] keys@[k])@ == key_name(k as nat),
    ensures
        match r {
            Some(k) => first_key_from(t@, pos as nat, 0) == Some(k as nat) && k < 61,
            None => first_key_from(t@, pos as nat, 0) is None,
        },
{
    let mut k: usize = 0;
    while k < 61
        invariant
            k <= 61,
            pos <= t@.len(),
            keys@.len() == 61,
            forall|m: int| 0 <= m < 61 ==> (#[trigger] keys@[m])@ == key_name(m as nat),
            first_key_from(t@, pos as nat, 0) == first_key_from(t@, pos as nat, k as nat),
        decreases 61 - k,
    {
        let key = &keys[k];
        proof {
            assert(keys@[k as int]@ == key_name(k as nat));
        }
        match split_line(t, pos, key.as_slice()) {
            Some(_) => {
                return Some(k);
            },
            None => {},
        }
        k += 1;
    }
    None
}

/// The outcome of parsing an affix file from `pos`, where the entry at
/// `pos` starts at line `line`: the entries read, or the class of the first
/// error and its line.
pub enum Parsed {
    Done(Seq<NodeView>),
    Failed(ErrClass, nat),
}

/// Parse the text `t` from `pos` on. At each position the first key that
/// matches is read; where no key matches, the line must end (after blank
/// space or a comment) or the text must end.
pub open spec fn parse_from(t: Seq<char>, pos: nat, line: nat) -> Parsed
    decreases t.len() - pos,
{
    match first_key_from(t, pos, 0) {
        Some(k) => match entry_at(t, pos, k) {
            Some(Entry::Node(v, e, n)) => if pos < e <= t.len() {
                match parse_from(t, e, line + n) {
                    Parsed::Done(rest) => Parsed::Done(seq![NodeView { key: k, value: v }] + rest),
                    Parsed::Failed(c, l) => Parsed::Failed(c, l),
                }
            } else {
                Parsed::Done(Seq::empty())
            },
            Some(Entry::Fail(c, l)) => Parsed::Failed(c, line + l),
            None => Parsed::Done(Seq::empty()),
        },
        None => match line_end_at(t, pos) {
            LineEnd::Next(p) => if pos < p <= t.len() {
                parse_from(t, p, line + 1)
            } else {
                Parsed::Done(Seq::empty())
            },
            LineEnd::End => Parsed::Done(Seq::empty()),
            LineEnd::Junk(_) => Parsed::Failed(ErrClass::NonWhitespace, line),
        },
    }
}

/// The key found by [`first_key_from`] does start the text.
proof fn lemma_first_key(t: Seq<char>, pos: nat, k: nat)
    requires
        k <= 61,
    ensures
        first_key_from(t, pos, k) matches Some(j) ==> k <= j < 61 && split_at_key(
            t,
            pos,
            key_name(j),
        ) is Some,
    decreases 61 - k,
{
    if k < 61 && split_at_key(t, pos, key_name(k)) is None {
        lemma_first_key(t, pos, k + 1);
    }
}

/// An entry that is read ends further on in the text, and takes no more
/// lines than it has characters.
proof fn lemma_entry_progress(t: Seq<char>, pos: nat, k: nat)
    requires
        k < 61,
        pos <= t.len(),
    ensures
        entry_at(t, pos, k) matches Some(Entry::Node(v, e, n)) ==> pos < e <= t.len() && n <= e
            - pos && n <= u16::MAX,
        entry_at(t, pos, k) matches Some(Entry::Fail(c, l)) ==> l <= u16::MAX + 1,
{
    lemma_keys_nonempty(k);
    let key = key_name(k);
    if split_at_key(t, pos, key) is Some {
        lemma_split_at_key(t, pos, key);
        let (a, b, e) = split_at_key(t, pos, key)->0;
        match key_kind(k) {
            Kind::StrTable | Kind::ConvTable | Kind::MapTable | Kind::PhoneTable | Kind::PatTable => {
                let n = crate::num::unsigned_value(t.subrange(a as int, b as int));
                if n is Some && n->0 <= u16::MAX {
                    if lines::rows_from(t, e, key, n->0) is Ok {
                        lemma_rows_from(t, e, key, n->0);
                    }
                    lemma_rows_missing(t, e, key, n->0);
                }
                if entry_at(t, pos, k) matches Some(Entry::Fail(c, l)) {
                    lemma_rows_bad(t, pos, k);
                }
            },
            Kind::AfxTable(rt) => {
                let hf = crate::text::fields(t.subrange(a as int, b as int));
                if hf.len() == 3 {
                    let n = crate::num::unsigned_value(hf[2]);
                    if n is Some && n->0 <= u16::MAX {
                        if lines::rows_from(t, e, key, n->0) is Ok {
                            lemma_rows_from(t, e, key, n->0);
                            let rs = lines::rows_from(t, e, key, n->0)->Ok_0.0;
                            let cs = lines::row_texts(t, rs);
                            entries::lemma_first_bad(cs, |c: Seq<char>| entries::rule_of(rt, hf[0], c) is Ok);
                        }
                        lemma_rows_missing(t, e, key, n->0);
                    }
                }
            },
            _ => {},
        }
    }
}

/// A missing row is counted among the rows a table declares.
proof fn lemma_rows_missing(t: Seq<char>, cur: nat, key: Seq<char>, n: nat)
    ensures
        lines::rows_from(t, cur, key, n) matches Err(k) ==> k < n,
    decreases n,
{
    if n > 0 {
        if let LineEnd::Next(p) = line_end_at(t, cur) {
            if let Some((a, b, e)) = split_at_key(t, p, key) {
                lemma_rows_missing(t, e, key, (n - 1) as nat);
            }
        }
    }
}

/// A rejected row of a table is one of its rows.
proof fn lemma_rows_bad(t: Seq<char>, pos: nat, k: nat)
    requires
        k < 61,
        pos <= t.len(),
        key_kind(k) is StrTable || key_kind(k) is ConvTable || key_kind(k) is MapTable
            || key_kind(k) is PhoneTable || key_kind(k) is PatTable,
    ensures
        entry_at(t, pos, k) matches Some(Entry::Fail(c, l)) ==> l <= u16::MAX + 1,
{
    lemma_keys_nonempty(k);
    let key = key_name(k);
    if let Some(lines::TableShape::Rows(n, rs, end)) = lines::table_at(t, pos, key) {
        lemma_table_rows(t, pos, key);
        let cs = lines::row_texts(t, rs);
        entries::lemma_first_bad(cs, entries::row_ok(key_kind(k)));
    }
    if let Some(lines::TableShape::Missing(n, j)) = lines::table_at(t, pos, key) {
        lemma_split_at_key(t, pos, key);
        let (a, b, e) = split_at_key(t, pos, key)->0;
        lemma_rows_missing(t, e, key, n);
    }
}

/// The views of a list of entries.
pub open spec fn nodes_view(v: Seq<AffixNode>) -> Seq<NodeView> {
    v.map_values(|n: AffixNode| n@)
}

/// Parse a whole affix file.
///
/// The file may not hold more lines than a `u32` can number; texts of
/// fewer than about four billion characters are always accepted.
pub fn parse_affix(s: &str) -> (r: Result<Vec<AffixNode>, ParseError>)
    requires
        s@.len() + 0x20000 < u32::MAX,
    ensures
        match parse_from(s@, 0, 0) {
            Parsed::Done(vs) => r matches Ok(v) && nodes_view(v@) == vs,
            Parsed::Failed(c, l) => r matches Err(e) && class_of(e.kind()) == c && err_line(e) == l,
        },
{
    let t = chars_of(s);
    let keys = key_chars();
    let n = t.len();
    let mut nodes: Vec<AffixNode> = Vec::new();
    let mut pos: usize = 0;
    let mut line: u32 = 0;
    loop
        invariant
            t@ == s@,
            n == t@.len(),
            n + 0x20000 < u32::MAX,
            pos <= n,
            line <= pos,
            keys@.len() == 61,
            forall|k: int| 0 <= k < 61 ==> (#[trigger] keys@[k])@ == key_name(k as nat),
            parse_from(s@, 0, 0) == match parse_from(s@, pos as nat, line as nat) {
                Parsed::Done(rest) => Parsed::Done(nodes_view(nodes@) + rest),
                Parsed::Failed(c, l) => Parsed::Failed(c, l),
            },
        decreases n - pos,
    {
        match find_key(t.as_slice(), pos, &keys) {
            Some(k) => {
                proof {
                    assert(keys@[k as int]@ == key_name(k as nat));
                    lemma_entry_progress(t@, pos as nat, k as nat);
                }
                match parse_entry(t.as_slice(), pos, k, keys[k].as_slice()) {
                    Ok(Some((node, e, lines))) => {
                        let ghost before = nodes@;
                        nodes.push(node);
                        proof {
                            assert(nodes_view(nodes@) =~= nodes_view(before).push(node@));
                            match parse_from(s@, e as nat, (line + lines) as nat) {
                                Parsed::Done(rest) => {
                                    assert(nodes_view(before) + (seq![node@] + rest) =~= nodes_view(
                                        nodes@,
                                    ) + rest);
                                },
                                Parsed::Failed(c, l) => {},
                            }
                        }
                        pos = e;
                        line = line + lines;
                    },
                    Ok(None) => {
                        proof {
                            lemma_first_key(t@, pos as nat, 0);
                            lemma_keys_nonempty(k as nat);
                        }
                        return Ok(nodes);
                    },
                    Err(err) => {
                        let ghost l = err_line(err);
                        proof {
                            assert(l <= u16::MAX + 1);
                        }
                        return Err(err.add_offset_ret(line, 0));
                    },
                }
            },
            None => {
                let le = line_end(t.as_slice(), pos);
                proof {
                    lemma_line_end(t@, pos as nat);
                }
                match le {
                    Ok(Some(p)) => {
                        proof {
                            match line_end_at(t@, pos as nat) {
                                LineEnd::Next(q) => {
                                    assert(t@.len() == t.len());
                                    assert(q == p);
                                },
                                LineEnd::End => {},
                                LineEnd::Junk(c) => {},
                            }
                        }
                        pos = p;
                        line = line + 1;
                    },
                    Ok(None) => {
                        proof {
                            assert(nodes_view(nodes@) + Seq::<NodeView>::empty() =~= nodes_view(nodes@));
                        }
                        return Ok(nodes);
                    },
                    Err(c) => {
                        let mut ctx = String::new();
                        crate::text::push_char(&mut ctx, c);
                        return Err(ParseError::new(ParseErrorKind::NonWhitespace(c), ctx.as_str(), line, 0));
                    },
                }
            },
        }
    }
}


/// Split the line at the start of `s` by the key `key`: the content after
/// the key, with the blank space around it removed, up to the first line
/// terminator (`\r`, `\n` or `#`) after the key; and the rest of the text
/// from that terminator on. `None` if `s` does not start with the key.
pub fn line_splitter<'a>(s: &'a str, key: &str) -> (r: Option<(&'a str, &'a str)>)
    ensures
        match split_at_key(s@, 0, key@) {
            Some((a, b, e)) => r matches Some((w, rest)) && w@ == s@.subrange(a as int, b as int)
                && rest@ == s@.subrange(e as int, s@.len() as int),
            None => r is None,
        },
{
    let t = chars_of(s);
    let k = chars_of(key);
    match split_line(t.as_slice(), 0, k.as_slice()) {
        Some((a, b, e)) => {
            proof {
                lemma_split_at_key(s@, 0, key@);
            }
            Some((s.substring_char(a, b), s.substring_char(e, t.len())))
        },
        None => None,
    }
}

/// Read the line at the start of `s` that begins with `key`: `f` makes an
/// entry of the content of the line (as [`line_splitter`] cuts it); the
/// result is that entry with the rest of the text, or the error of `f`.
/// `None` if `s` does not start with the key.
pub fn line_key_parser<'a, F>(s: &'a str, key: &str, f: F) -> (r: Result<Option<(AffixNode, &'a str, u32)>, ParseError>)
    where
        F: FnOnce(&str) -> Result<AffixNode, ParseError>,
    requires
        forall|c: &str| f.requires((c,)),
    ensures
        match split_at_key(s@, 0, key@) {
            Some((a, b, e)) => exists|c: &str, res: Result<AffixNode, ParseError>|
                c@ == s@.subrange(a as int, b as int) && #[trigger] f.ensures((c,), res) && match res {
                    Ok(node) => r matches Ok(Some((x, rest, n))) && x == node && rest@ == s@.subrange(
                        e as int,
                        s@.len() as int,
                    ) && n == 0,
                    Err(err) => r == Err::<Option<(AffixNode, &str, u32)>, ParseError>(err),
                },
            None => r matches Ok(None),
        },
{
    match line_splitter(s, key) {
        Some((work, residual)) => {
            let res = f(work);
            proof {
                assert(f.ensures((work,), res));
            }
            match res {
                Ok(node) => Ok(Some((node, residual, 0))),
                Err(err) => Err(err),
            }
        },
        None => Ok(None),
    }
}

/// Consume the end of the line at the start of `s`: blank space, then a
/// line feed or a comment running to one. The rest of the text after that
/// line feed; `None` if the text ends first; an error if anything else
/// comes before the end of the line.
pub fn munch_newline(s: &str) -> (r: Result<Option<&str>, ParseError>)
    ensures
        match line_end_at(s@, 0) {
            LineEnd::Next(p) => r matches Ok(Some(rest)) && rest@ == s@.subrange(p as int, s@.len() as int),
            LineEnd::End => r matches Ok(None),
            LineEnd::Junk(c) => r matches Err(e) && e.kind() == ParseErrorKind::NonWhitespace(c),
        },
{
    let t = chars_of(s);
    let le = line_end(t.as_slice(), 0);
    proof {
        lemma_line_end(s@, 0);
    }
    match le {
        Ok(Some(p)) => {
            proof {
                if let LineEnd::Next(q) = line_end_at(s@, 0) {
                    assert(t@.len() == t.len());
                }
            }
            Ok(Some(s.substring_char(p, t.len())))
        },
        Ok(None) => Ok(None),
        Err(c) => {
            let mut ctx = String::new();
            crate::text::push_char(&mut ctx, c);
            Err(ParseError::new_nospan(ParseErrorKind::NonWhitespace(c), ctx.as_str()))
        },
    }
}

/// Read the entry of the key with index `k` at the start of `s`: the
/// entry, the rest of the text after it, and the number of lines it took
/// after its first.
pub fn parse_key<'a>(s: &'a str, k: usize) -> (r: Result<Option<(AffixNode, &'a str, u32)>, ParseError>)
    requires
        k < 61,
    ensures
        match entry_at(s@, 0, k as nat) {
            None => r matches Ok(None),
            Some(Entry::Node(v, e, n)) => r matches Ok(Some((x, rest, n2))) && x@ == (NodeView {
                key: k as nat,
                value: v,
            }) && rest@ == s@.subrange(e as int, s@.len() as int) && n2 == n,
            Some(Entry::Fail(c, l)) => r matches Err(err) && class_of(err.kind()) == c && err_line(
                err,
            ) == l,
        },
{
    let t = chars_of(s);
    let key = chars_of(key_str(k));
    proof {
        lemma_entry_progress(s@, 0, k as nat);
    }
    match parse_entry(t.as_slice(), 0, k, key.as_slice()) {
        Ok(Some((x, e, n))) => Ok(Some((x, s.substring_char(e, t.len()), n))),
        Ok(None) => Ok(None),
        Err(err) => Err(err),
    }
}

/// `COMPLEXPREFIXES`, a boolean key.
pub fn parse_complex_prefixes<'a>(s: &'a str) -> (r: Result<Option<(AffixNode, &'a str, u32)>, ParseError>)
    ensures
        match entry_at(s@, 0, 3) {
            None => r matches Ok(None),
            Some(Entry::Node(v, e, n)) => r matches Ok(Some((x, rest, n2))) && x@ == (NodeView {
                key: 3,
                value: v,
            }) && rest@ == s@.subrange(e as int, s@.len() as int) && n2 == n,
            Some(Entry::Fail(c, l)) => r matches Err(err) && class_of(err.kind()) == c && err_line(
                err,
            ) == l,
        },
{
    parse_key(s, 3)
}

/// `KEY`, the neighbouring keys.
pub fn parse_neighbor_keys<'a>(s: &'a str) -> (r: Result<Option<(AffixNode, &'a str, u32)>, ParseError>)
    ensures
        match entry_at(s@, 0, 8) {
            None => r matches Ok(None),
            Some(Entry::Node(v, e, n)) => r matches Ok(Some((x, rest, n2))) && x@ == (NodeView {
                key: 8,
                value: v,
            }) && rest@ == s@.subrange(e as int, s@.len() as int) && n2 == n,
            Some(Entry::Fail(c, l)) => r matches Err(err) && class_of(err.kind()) == c && err_line(
                err,
            ) == l,
        },
{
    parse_key(s, 8)
}

/// `REP`, the replacement table.
pub fn parse_replacement<'a>(s: &'a str) -> (r: Result<Option<(AffixNode, &'a str, u32)>, ParseError>)
    ensures
        match entry_at(s@, 0, 17) {
            None => r matches Ok(None),
            Some(Entry::Node(v, e, n)) => r matches Ok(Some((x, rest, n2))) && x@ == (NodeView {
                key: 17,
                value: v,
            }) && rest@ == s@.subrange(e as int, s@.len() as int) && n2 == n,
            Some(Entry::Fail(c, l)) => r matches Err(err) && class_of(err.kind()) == c && err_line(
                err,
            ) == l,
        },
{
    parse_key(s, 17)
}

/// `PFX`, a prefix table.
pub fn parse_prefix<'a>(s: &'a str) -> (r: Result<Option<(AffixNode, &'a str, u32)>, ParseError>)
    ensures
        match entry_at(s@, 0, 44) {
            None => r matches Ok(None),
            Some(Entry::Node(v, e, n)) => r matches Ok(Some((x, rest, n2))) && x@ == (NodeView {
                key: 44,
                value: v,
            }) && rest@ == s@.subrange(e as int, s@.len() as int) && n2 == n,
            Some(Entry::Fail(c, l)) => r matches Err(err) && class_of(err.kind()) == c && err_line(
                err,
            ) == l,
        },
{
    parse_key(s, 44)
}

} // verus!

//! The entries of an affix file.

use vstd::prelude::*;

use super::types::ParsedRuleGroup;
use crate::affix::{CompoundPattern, CompoundSyllable, Conversion, Encoding, FlagType, Phonetic, RuleType};
use crate::dict::rule::PatternView;

verus! {

/// A single entry of an affix file: one line, or one table.
///
/// Flags are kept as the strings that the file writes; they are read
/// according to the flag type once the whole file is known.
#[derive(Debug, PartialEq, Eq)]
pub enum AffixNode {
    /// `#`
    Comment,
    /// `SET`
    Encoding(Encoding),
    /// `FLAG`
    FlagType(FlagType),
    /// `COMPLEXPREFIXES`
    ComplexPrefixes,
    /// `LANG`
    Language(String),
    /// `IGNORE`
    IgnoreChars(Vec<char>),
    /// `AF`
    AffixAlias(Vec<String>),
    /// `AM`
    MorphAlias(Vec<String>),
    /// `KEY`
    NeighborKeys(Vec<String>),
    /// `TRY`
    TryCharacters(String),
    /// `NOSUGGEST`
    NoSuggestFlag(String),
    /// `MAXCPDSUGS`
    CompoundSugMax(u16),
    /// `MAXNGRAMSUGS`
    NGramSugMax(u16),
    /// `MAXDIFF`
    NGramDiffMax(u8),
    /// `ONLYMAXDIFF`
    NGramLimitToDiffMax,
    /// `NOSPLITSUGS`
    NoSplitSuggestions,
    /// `SUGSWITHDOTS`
    KeepTermDots,
    /// `REP`
    Replacement(Vec<Conversion>),
    /// `MAP`
    Mapping(Vec<(char, char)>),
    /// `PHONE`
    Phonetic(Vec<Phonetic>),
    /// `WARN`
    WarnRareFlag(String),
    /// `FORBIDWARN`
    ForbidWarnWords,
    /// `BREAK`
    BreakSeparator(Vec<String>),
    /// `COMPOUNDRULE`
    CompoundRule(Vec<String>),
    /// `COMPOUNDMIN`
    CompoundMinLen(u16),
    /// `COMPOUNDFLAG`
    CompoundFlag(String),
    /// `COMPOUNDBEGIN`
    CompoundBeginFlag(String),
    /// `COMPOUNDLAST`
    CompoundEndFlag(String),
    /// `COMPOUNDMIDDLE`
    CompoundMiddleFlag(String),
    /// `ONLYINCOMPOUND`
    CompoundOnlyFlag(String),
    /// `COMPOUNDPERMITFLAG`
    CompoundPermitFlag(String),
    /// `COMPOUNDFORBIDFLAG`
    CompoundForbidFlag(String),
    /// `COMPOUNDMORESUFFIXES`
    CompoundMoreSuffixes,
    /// `COMPOUNDROOT`
    CompoundRootFlag(String),
    /// `COMPOUNDWORDMAX`
    CompoundWordMax(u16),
    /// `CHECKCOMPOUNDDUP`
    CompoundForbidDup,
    /// `CHECKCOMPOUNDREP`
    CompoundForbidRepeat,
    /// `CHECKCOMPOUNDCASE`
    CompoundCheckCase,
    /// `CHECKCOMPOUNDTRIPLE`
    CompoundCheckTriple,
    /// `SIMPLIFIEDTRIPLE`
    CompoundSimplifyTriple,
    /// `CHECKCOMPOUNDPATTERN`
    CompoundForbidPats(Vec<CompoundPattern>),
    /// `FORCEUCASE`
    CompoundForceUpFlag(String),
    /// `COMPOUNDSYLLABLE`
    CompoundSyllable(CompoundSyllable),
    /// `SYLLABLENUM`
    SyllableNum(String),
    /// `PFX`
    Prefix(ParsedRuleGroup),
    /// `SFX`
    Suffix(ParsedRuleGroup),
    /// `CIRCUMFIX`
    AfxCircumfixFlag(String),
    /// `FORBIDDENWORD`
    ForbiddenWordFlag(String),
    /// `FULLSTRIP`
    AfxFullStrip,
    /// `KEEPCASE`
    AfxKeepCaseFlag(String),
    /// `ICONV`
    AfxInputConversion(Vec<Conversion>),
    /// `OCONV`
    AfxOutputConversion(Vec<Conversion>),
    /// `LEMMA_PRESENT`
    AfxLemmaPresentFlag(String),
    /// `NEEDAFFIX`
    AfxNeededFlag(String),
    /// `PSEUDOROOT`
    AfxPseudoRootFlag(String),
    /// `SUBSTANDARD`
    AfxSubstandardFlag(String),
    /// `WORDCHARS`
    AfxWordChars(String),
    /// `CHECKSHARPS`
    AfxCheckSharps,
    /// `NAME`
    Name(String),
    /// `HOME`
    HomePage(String),
    /// `VERSION`
    Version(String),
}

/// The value of a [`Conversion`]: input, output and whether it goes both
/// ways.
pub type ConversionView = (Seq<char>, Seq<char>, bool);

/// The value of a [`Phonetic`] rule: pattern and replacement.
pub type PhoneticView = (Seq<char>, Seq<char>);

/// The value of a [`CompoundPattern`].
pub struct CompoundPatternView {
    pub endchars: Seq<char>,
    pub endflag: Option<Seq<char>>,
    pub beginchars: Seq<char>,
    pub beginflag: Option<Seq<char>>,
    pub replacement: Option<Seq<char>>,
}

/// The value of a [`ParsedRuleGroup`].
pub struct GroupView {
    pub flag: Seq<char>,
    pub kind: RuleType,
    pub can_combine: bool,
    pub rules: Seq<PatternView>,
}

/// What an entry holds.
pub enum NodeValue {
    Unit,
    Encoding(Encoding),
    FlagType(FlagType),
    Text(Seq<char>),
    Chars(Seq<char>),
    Texts(Seq<Seq<char>>),
    Number(nat),
    Conversions(Seq<ConversionView>),
    Maps(Seq<(char, char)>),
    Phonetics(Seq<PhoneticView>),
    Patterns(Seq<CompoundPatternView>),
    Syllable(nat, Seq<char>),
    Group(GroupView),
}

/// The value of an [`AffixNode`]: the index of its key among
/// [`key_name`]'s keys, and what it holds.
pub struct NodeView {
    pub key: nat,
    pub value: NodeValue,
}

pub open spec fn conversion_view(c: Conversion) -> ConversionView {
    (c.input@, c.output@, c.bidirectional)
}

pub open spec fn phonetic_view(p: Phonetic) -> PhoneticView {
    (p.pattern@, p.replace@)
}

pub open spec fn opt_view(o: Option<String>) -> Option<Seq<char>> {
    match o {
        Some(s) => Some(s@),
        None => None,
    }
}

pub open spec fn pattern_view(p: CompoundPattern) -> CompoundPatternView {
    CompoundPatternView {
        endchars: p.endchars@,
        endflag: opt_view(p.endflag),
        beginchars: p.beginchars@,
        beginflag: opt_view(p.beginflag),
        replacement: opt_view(p.replacement),
    }
}

pub open spec fn group_view(g: ParsedRuleGroup) -> GroupView {
    GroupView { flag: g.flag@, kind: g.kind, can_combine: g.can_combine, rules: g.spec_rules() }
}

pub open spec fn strings_view(v: Seq<String>) -> Seq<Seq<char>> {
    v.map_values(|s: String| s@)
}

pub open spec fn conversions_view(v: Seq<Conversion>) -> Seq<ConversionView> {
    v.map_values(|c: Conversion| conversion_view(c))
}

pub open spec fn phonetics_view(v: Seq<Phonetic>) -> Seq<PhoneticView> {
    v.map_values(|p: Phonetic| phonetic_view(p))
}

pub open spec fn patterns_view(v: Seq<CompoundPattern>) -> Seq<CompoundPatternView> {
    v.map_values(|p: CompoundPattern| pattern_view(p))
}

pub open spec fn groups_view(v: Seq<ParsedRuleGroup>) -> Seq<GroupView> {
    v.map_values(|g: ParsedRuleGroup| group_view(g))
}

/// The keys of an affix file, in the order in which they are tried.
pub open spec fn key_name(k: nat) -> Seq<char> {
    if k == 0 {
        "#"@
    } else if k == 1 {
        "SET"@
    } else if k == 2 {
        "FLAG"@
    } else if k == 3 {
        "COMPLEXPREFIXES"@
    } else if k == 4 {
        "LANG"@
    } else if k == 5 {
        "IGNORE"@
    } else if k == 6 {
        "AF"@
    } else if k == 7 {
        "AM"@
    } else if k == 8 {
        "KEY"@
    } else if k == 9 {
        "TRY"@
    } else if k == 10 {
        "NOSUGGEST"@
    } else if k == 11 {
        "MAXCPDSUGS"@
    } else if k == 12 {
        "MAXNGRAMSUGS"@
    } else if k == 13 {
        "MAXDIFF"@
    } else if k == 14 {
        "ONLYMAXDIFF"@
    } else if k == 15 {
        "NOSPLITSUGS"@
    } else if k == 16 {
        "SUGSWITHDOTS"@
    } else if k == 17 {
        "REP"@
    } else if k == 18 {
        "MAP"@
    } else if k == 19 {
        "PHONE"@
    } else if k == 20 {
        "WARN"@
    } else if k == 21 {
        "FORBIDWARN"@
    } else if k == 22 {
        "BREAK"@
    } else if k == 23 {
        "COMPOUNDRULE"@
    } else if k == 24 {
        "COMPOUNDMIN"@
    } else if k == 25 {
        "COMPOUNDFLAG"@
    } else if k == 26 {
        "COMPOUNDBEGIN"@
    } else if k == 27 {
        "COMPOUNDLAST"@
    } else if k == 28 {
        "COMPOUNDMIDDLE"@
    } else if k == 29 {
        "ONLYINCOMPOUND"@
    } else if k == 30 {
        "COMPOUNDPERMITFLAG"@
    } else if k == 31 {
        "COMPOUNDFORBIDFLAG"@
    } else if k == 32 {
        "COMPOUNDMORESUFFIXES"@
    } else if k == 33 {
        "COMPOUNDROOT"@
    } else if k == 34 {
        "COMPOUNDWORDMAX"@
    } else if k == 35 {
        "CHECKCOMPOUNDDUP"@
    } else if k == 36 {
        "CHECKCOMPOUNDREP"@
    } else if k == 37 {
        "CHECKCOMPOUNDCASE"@
    } else if k == 38 {
        "CHECKCOMPOUNDTRIPLE"@
    } else if k == 39 {
        "SIMPLIFIEDTRIPLE"@
    } else if k == 40 {
        "CHECKCOMPOUNDPATTERN"@
    } else if k == 41 {
        "FORCEUCASE"@
    } else if k == 42 {
        "COMPOUNDSYLLABLE"@
    } else if k == 43 {
        "SYLLABLENUM"@
    } else if k == 44 {
        "PFX"@
    } else if k == 45 {
        "SFX"@
    } else if k == 46 {
        "CIRCUMFIX"@
    } else if k == 47 {
        "FORBIDDENWORD"@
    } else if k == 48 {
        "FULLSTRIP"@
    } else if k == 49 {
        "KEEPCASE"@
    } else if k == 50 {
        "ICONV"@
    } else if k == 51 {
        "OCONV"@
    } else if k == 52 {
        "LEMMA_PRESENT"@
    } else if k == 53 {
        "NEEDAFFIX"@
    } else if k == 54 {
        "PSEUDOROOT"@
    } else if k == 55 {
        "SUBSTANDARD"@
    } else if k == 56 {
        "WORDCHARS"@
    } else if k == 57 {
        "CHECKSHARPS"@
    } else if k == 58 {
        "NAME"@
    } else if k == 59 {
        "HOME"@
    } else {
        "VERSION"@
    }
}

/// The number of keys.
pub open spec fn key_count() -> nat {
    61
}

impl View for AffixNode {
    type V = NodeView;

    open spec fn view(&self) -> NodeView {
        match self {
            AffixNode::Comment => NodeView { key: 0, value: NodeValue::Unit },
            AffixNode::Encoding(x) => NodeView { key: 1, value: NodeValue::Encoding(*x) },
            AffixNode::FlagType(x) => NodeView { key: 2, value: NodeValue::FlagType(*x) },
            AffixNode::ComplexPrefixes => NodeView { key: 3, value: NodeValue::Unit },
            AffixNode::Language(x) => NodeView { key: 4, value: NodeValue::Text(x@) },
            AffixNode::IgnoreChars(x) => NodeView { key: 5, value: NodeValue::Chars(x@) },
            AffixNode::AffixAlias(x) => NodeView { key: 6, value: NodeValue::Texts(strings_view(x@)) },
            AffixNode::MorphAlias(x) => NodeView { key: 7, value: NodeValue::Texts(strings_view(x@)) },
            AffixNode::NeighborKeys(x) => NodeView { key: 8, value: NodeValue::Texts(strings_view(x@)) },
            AffixNode::TryCharacters(x) => NodeView { key: 9, value: NodeValue::Text(x@) },
            AffixNode::NoSuggestFlag(x) => NodeView { key: 10, value: NodeValue::Text(x@) },
            AffixNode::CompoundSugMax(x) => NodeView { key: 11, value: NodeValue::Number(*x as nat) },
            AffixNode::NGramSugMax(x) => NodeView { key: 12, value: NodeValue::Number(*x as nat) },
            AffixNode::NGramDiffMax(x) => NodeView { key: 13, value: NodeValue::Number(*x as nat) },
            AffixNode::NGramLimitToDiffMax => NodeView { key: 14, value: NodeValue::Unit },
            AffixNode::NoSplitSuggestions => NodeView { key: 15, value: NodeValue::Unit },
            AffixNode::KeepTermDots => NodeView { key: 16, value: NodeValue::Unit },
            AffixNode::Replacement(x) => NodeView { key: 17, value: NodeValue::Conversions(conversions_view(x@)) },
            AffixNode::Mapping(x) => NodeView { key: 18, value: NodeValue::Maps(x@) },
            AffixNode::Phonetic(x) => NodeView { key: 19, value: NodeValue::Phonetics(phonetics_view(x@)) },
            AffixNode::WarnRareFlag(x) => NodeView { key: 20, value: NodeValue::Text(x@) },
            AffixNode::ForbidWarnWords => NodeView { key: 21, value: NodeValue::Unit },
            AffixNode::BreakSeparator(x) => NodeView { key: 22, value: NodeValue::Texts(strings_view(x@)) },
            AffixNode::CompoundRule(x) => NodeView { key: 23, value: NodeValue::Texts(strings_view(x@)) },
            AffixNode::CompoundMinLen(x) => NodeView { key: 24, value: NodeValue::Number(*x as nat) },
            AffixNode::CompoundFlag(x) => NodeView { key: 25, value: NodeValue::Text(x@) },
            AffixNode::CompoundBeginFlag(x) => NodeView { key: 26, value: NodeValue::Text(x@) },
            AffixNode::CompoundEndFlag(x) => NodeView { key: 27, value: NodeValue::Text(x@) },
            AffixNode::CompoundMiddleFlag(x) => NodeView { key: 28, value: NodeValue::Text(x@) },
            AffixNode::CompoundOnlyFlag(x) => NodeView { key: 29, value: NodeValue::Text(x@) },
            AffixNode::CompoundPermitFlag(x) => NodeView { key: 30, value: NodeValue::Text(x@) },
            AffixNode::CompoundForbidFlag(x) => NodeView { key: 31, value: NodeValue::Text(x@) },
            AffixNode::CompoundMoreSuffixes => NodeView { key: 32, value: NodeValue::Unit },
            AffixNode::CompoundRootFlag(x) => NodeView { key: 33, value: NodeValue::Text(x@) },
            AffixNode::CompoundWordMax(x) => NodeView { key: 34, value: NodeValue::Number(*x as nat) },
            AffixNode::CompoundForbidDup => NodeView { key: 35, value: NodeValue::Unit },
            AffixNode::CompoundForbidRepeat => NodeView { key: 36, value: NodeValue::Unit },
            AffixNode::CompoundCheckCase => NodeView { key: 37, value: NodeValue::Unit },
            AffixNode::CompoundCheckTriple => NodeView { key: 38, value: NodeValue::Unit },
            AffixNode::CompoundSimplifyTriple => NodeView { key: 39, value: NodeValue::Unit },
            AffixNode::CompoundForbidPats(x) => NodeView { key: 40, value: NodeValue::Patterns(patterns_view(x@)) },
            AffixNode::CompoundForceUpFlag(x) => NodeView { key: 41, value: NodeValue::Text(x@) },
            AffixNode::CompoundSyllable(x) => NodeView { key: 42, value: NodeValue::Syllable(x.count as nat, x.vowels@) },
            AffixNode::SyllableNum(x) => NodeView { key: 43, value: NodeValue::Text(x@) },
            AffixNode::Prefix(x) => NodeView { key: 44, value: NodeValue::Group(group_view(*x)) },
            AffixNode::Suffix(x) => NodeView { key: 45, value: NodeValue::Group(group_view(*x)) },
            AffixNode::AfxCircumfixFlag(x) => NodeView { key: 46, value: NodeValue::Text(x@) },
            AffixNode::ForbiddenWordFlag(x) => NodeView { key: 47, value: NodeValue::Text(x@) },
            AffixNode::AfxFullStrip => NodeView { key: 48, value: NodeValue::Unit },
            AffixNode::AfxKeepCaseFlag(x) => NodeView { key: 49, value: NodeValue::Text(x@) },
            AffixNode::AfxInputConversion(x) => NodeView { key: 50, value: NodeValue::Conversions(conversions_view(x@)) },
            AffixNode::AfxOutputConversion(x) => NodeView { key: 51, value: NodeValue::Conversions(conversions_view(x@)) },
            AffixNode::AfxLemmaPresentFlag(x) => NodeView { key: 52, value: NodeValue::Text(x@) },
            AffixNode::AfxNeededFlag(x) => NodeView { key: 53, value: NodeValue::Text(x@) },
            AffixNode::AfxPseudoRootFlag(x) => NodeView { key: 54, value: NodeValue::Text(x@) },
            AffixNode::AfxSubstandardFlag(x) => NodeView { key: 55, value: NodeValue::Text(x@) },
            AffixNode::AfxWordChars(x) => NodeView { key: 56, value: NodeValue::Text(x@) },
            AffixNode::AfxCheckSharps => NodeView { key: 57, value: NodeValue::Unit },
            AffixNode::Name(x) => NodeView { key: 58, value: NodeValue::Text(x@) },
            AffixNode::HomePage(x) => NodeView { key: 59, value: NodeValue::Text(x@) },
            AffixNode::Version(x) => NodeView { key: 60, value: NodeValue::Text(x@) },
        }
    }
}

impl AffixNode {
    /// The key under which the affix file writes this entry.
    pub fn name_str(&self) -> (r: &'static str)
        ensures
            r@ == key_name(self@.key),
    {
        match self {
            AffixNode::Comment => "#",
            AffixNode::Encoding(_) => "SET",
            AffixNode::FlagType(_) => "FLAG",
            AffixNode::ComplexPrefixes => "COMPLEXPREFIXES",
            AffixNode::Language(_) => "LANG",
            AffixNode::IgnoreChars(_) => "IGNORE",
            AffixNode::AffixAlias(_) => "AF",
            AffixNode::MorphAlias(_) => "AM",
            AffixNode::NeighborKeys(_) => "KEY",
            AffixNode::TryCharacters(_) => "TRY",
            AffixNode::NoSuggestFlag(_) => "NOSUGGEST",
            AffixNode::CompoundSugMax(_) => "MAXCPDSUGS",
            AffixNode::NGramSugMax(_) => "MAXNGRAMSUGS",
            AffixNode::NGramDiffMax(_) => "MAXDIFF",
            AffixNode::NGramLimitToDiffMax => "ONLYMAXDIFF",
            AffixNode::NoSplitSuggestions => "NOSPLITSUGS",
            AffixNode::KeepTermDots => "SUGSWITHDOTS",
            AffixNode::Replacement(_) => "REP",
            AffixNode::Mapping(_) => "MAP",
            AffixNode::Phonetic(_) => "PHONE",
            AffixNode::WarnRareFlag(_) => "WARN",
            AffixNode::ForbidWarnWords => "FORBIDWARN",
            AffixNode::BreakSeparator(_) => "BREAK",
            AffixNode::CompoundRule(_) => "COMPOUNDRULE",
            AffixNode::CompoundMinLen(_) => "COMPOUNDMIN",
            AffixNode::CompoundFlag(_) => "COMPOUNDFLAG",
            AffixNode::CompoundBeginFlag(_) => "COMPOUNDBEGIN",
            AffixNode::CompoundEndFlag(_) => "COMPOUNDLAST",
            AffixNode::CompoundMiddleFlag(_) => "COMPOUNDMIDDLE",
            AffixNode::CompoundOnlyFlag(_) => "ONLYINCOMPOUND",
            AffixNode::CompoundPermitFlag(_) => "COMPOUNDPERMITFLAG",
            AffixNode::CompoundForbidFlag(_) => "COMPOUNDFORBIDFLAG",
            AffixNode::CompoundMoreSuffixes => "COMPOUNDMORESUFFIXES",
            AffixNode::CompoundRootFlag(_) => "COMPOUNDROOT",
            AffixNode::CompoundWordMax(_) => "COMPOUNDWORDMAX",
            AffixNode::CompoundForbidDup => "CHECKCOMPOUNDDUP",
            AffixNode::CompoundForbidRepeat => "CHECKCOMPOUNDREP",
            AffixNode::CompoundCheckCase => "CHECKCOMPOUNDCASE",
            AffixNode::CompoundCheckTriple => "CHECKCOMPOUNDTRIPLE",
            AffixNode::CompoundSimplifyTriple => "SIMPLIFIEDTRIPLE",
            AffixNode::CompoundForbidPats(_) => "CHECKCOMPOUNDPATTERN",
            AffixNode::CompoundForceUpFlag(_) => "FORCEUCASE",
            AffixNode::CompoundSyllable(_) => "COMPOUNDSYLLABLE",
            AffixNode::SyllableNum(_) => "SYLLABLENUM",
            AffixNode::Prefix(_) => "PFX",
            AffixNode::Suffix(_) => "SFX",
            AffixNode::AfxCircumfixFlag(_) => "CIRCUMFIX",
            AffixNode::ForbiddenWordFlag(_) => "FORBIDDENWORD",
            AffixNode::AfxFullStrip => "FULLSTRIP",
            AffixNode::AfxKeepCaseFlag(_) => "KEEPCASE",
            AffixNode::AfxInputConversion(_) => "ICONV",
            AffixNode::AfxOutputConversion(_) => "OCONV",
            AffixNode::AfxLemmaPresentFlag(_) => "LEMMA_PRESENT",
            AffixNode::AfxNeededFlag(_) => "NEEDAFFIX",
            AffixNode::AfxPseudoRootFlag(_) => "PSEUDOROOT",
            AffixNode::AfxSubstandardFlag(_) => "SUBSTANDARD",
            AffixNode::AfxWordChars(_) => "WORDCHARS",
            AffixNode::AfxCheckSharps => "CHECKSHARPS",
            AffixNode::Name(_) => "NAME",
            AffixNode::HomePage(_) => "HOME",
            AffixNode::Version(_) => "VERSION",
        }
    }
}

} // verus!

verus! {

/// The number of the key written `s`, or 61 where `s` is no key.
pub open spec fn key_number(s: Seq<char>) -> nat {
    if s == "#"@ {
        0
    } else if s == "SET"@ {
        1
    } else if s == "FLAG"@ {
        2
    } else if s == "COMPLEXPREFIXES"@ {
        3
    } else if s == "LANG"@ {
        4
    } else if s == "IGNORE"@ {
        5
    } else if s == "AF"@ {
        6
    } else if s == "AM"@ {
        7
    } else if s == "KEY"@ {
        8
    } else if s == "TRY"@ {
        9
    } else if s == "NOSUGGEST"@ {
        10
    } else if s == "MAXCPDSUGS"@ {
        11
    } else if s == "MAXNGRAMSUGS"@ {
        12
    } else if s == "MAXDIFF"@ {
        13
    } else if s == "ONLYMAXDIFF"@ {
        14
    } else if s == "NOSPLITSUGS"@ {
        15
    } else if s == "SUGSWITHDOTS"@ {
        16
    } else if s == "REP"@ {
        17
    } else if s == "MAP"@ {
        18
    } else if s == "PHONE"@ {
        19
    } else if s == "WARN"@ {
        20
    } else if s == "FORBIDWARN"@ {
        21
    } else if s == "BREAK"@ {
        22
    } else if s == "COMPOUNDRULE"@ {
        23
    } else if s == "COMPOUNDMIN"@ {
        24
    } else if s == "COMPOUNDFLAG"@ {
        25
    } else if s == "COMPOUNDBEGIN"@ {
        26
    } else if s == "COMPOUNDLAST"@ {
        27
    } else if s == "COMPOUNDMIDDLE"@ {
        28
    } else if s == "ONLYINCOMPOUND"@ {
        29
    } else if s == "COMPOUNDPERMITFLAG"@ {
        30
    } else if s == "COMPOUNDFORBIDFLAG"@ {
        31
    } else if s == "COMPOUNDMORESUFFIXES"@ {
        32
    } else if s == "COMPOUNDROOT"@ {
        33
    } else if s == "COMPOUNDWORDMAX"@ {
        34
    } else if s == "CHECKCOMPOUNDDUP"@ {
        35
    } else if s == "CHECKCOMPOUNDREP"@ {
        36
    } else if s == "CHECKCOMPOUNDCASE"@ {
        37
    } else if s == "CHECKCOMPOUNDTRIPLE"@ {
        38
    } else if s == "SIMPLIFIEDTRIPLE"@ {
        39
    } else if s == "CHECKCOMPOUNDPATTERN"@ {
        40
    } else if s == "FORCEUCASE"@ {
        41
    } else if s == "COMPOUNDSYLLABLE"@ {
        42
    } else if s == "SYLLABLENUM"@ {
        43
    } else if s == "PFX"@ {
        44
    } else if s == "SFX"@ {
        45
    } else if s == "CIRCUMFIX"@ {
        46
    } else if s == "FORBIDDENWORD"@ {
        47
    } else if s == "FULLSTRIP"@ {
        48
    } else if s == "KEEPCASE"@ {
        49
    } else if s == "ICONV"@ {
        50
    } else if s == "OCONV"@ {
        51
    } else if s == "LEMMA_PRESENT"@ {
        52
    } else if s == "NEEDAFFIX"@ {
        53
    } else if s == "PSEUDOROOT"@ {
        54
    } else if s == "SUBSTANDARD"@ {
        55
    } else if s == "WORDCHARS"@ {
        56
    } else if s == "CHECKSHARPS"@ {
        57
    } else if s == "NAME"@ {
        58
    } else if s == "HOME"@ {
        59
    } else if s == "VERSION"@ {
        60
    } else {
        61
    }
}

/// Every key is read back as its own number.
proof fn lemma_key_number(k: nat)
    requires
        k < 61,
    ensures
        key_number(key_name(k)) == k,
{
    reveal_strlit("#");
    reveal_strlit("SET");
    reveal_strlit("FLAG");
    reveal_strlit("COMPLEXPREFIXES");
    reveal_strlit("LANG");
    reveal_strlit("IGNORE");
    reveal_strlit("AF");
    reveal_strlit("AM");
    reveal_strlit("KEY");
    reveal_strlit("TRY");
    reveal_strlit("NOSUGGEST");
    reveal_strlit("MAXCPDSUGS");
    reveal_strlit("MAXNGRAMSUGS");
    reveal_strlit("MAXDIFF");
    reveal_strlit("ONLYMAXDIFF");
    reveal_strlit("NOSPLITSUGS");
    reveal_strlit("SUGSWITHDOTS");
    reveal_strlit("REP");
    reveal_strlit("MAP");
    reveal_strlit("PHONE");
    reveal_strlit("WARN");
    reveal_strlit("FORBIDWARN");
    reveal_strlit("BREAK");
    reveal_strlit("COMPOUNDRULE");
    reveal_strlit("COMPOUNDMIN");
    reveal_strlit("COMPOUNDFLAG");
    reveal_strlit("COMPOUNDBEGIN");
    reveal_strlit("COMPOUNDLAST");
    reveal_strlit("COMPOUNDMIDDLE");
    reveal_strlit("ONLYINCOMPOUND");
    reveal_strlit("COMPOUNDPERMITFLAG");
    reveal_strlit("COMPOUNDFORBIDFLAG");
    reveal_strlit("COMPOUNDMORESUFFIXES");
    reveal_strlit("COMPOUNDROOT");
    reveal_strlit("COMPOUNDWORDMAX");
    reveal_strlit("CHECKCOMPOUNDDUP");
    reveal_strlit("CHECKCOMPOUNDREP");
    reveal_strlit("CHECKCOMPOUNDCASE");
    reveal_strlit("CHECKCOMPOUNDTRIPLE");
    reveal_strlit("SIMPLIFIEDTRIPLE");
    reveal_strlit("CHECKCOMPOUNDPATTERN");
    reveal_strlit("FORCEUCASE");
    reveal_strlit("COMPOUNDSYLLABLE");
    reveal_strlit("SYLLABLENUM");
    reveal_strlit("PFX");
    reveal_strlit("SFX");
    reveal_strlit("CIRCUMFIX");
    reveal_strlit("FORBIDDENWORD");
    reveal_strlit("FULLSTRIP");
    reveal_strlit("KEEPCASE");
    reveal_strlit("ICONV");
    reveal_strlit("OCONV");
    reveal_strlit("LEMMA_PRESENT");
    reveal_strlit("NEEDAFFIX");
    reveal_strlit("PSEUDOROOT");
    reveal_strlit("SUBSTANDARD");
    reveal_strlit("WORDCHARS");
    reveal_strlit("CHECKSHARPS");
    reveal_strlit("NAME");
    reveal_strlit("HOME");
    reveal_strlit("VERSION");
    assert("#"@.len() == 1);
    assert("SET"@.len() == 3);
    assert("FLAG"@.len() == 4);
    assert("COMPLEXPREFIXES"@.len() == 15);
    assert("LANG"@.len() == 4);
    assert("IGNORE"@.len() == 6);
    assert("AF"@.len() == 2);
    assert("AM"@.len() == 2);
    assert("KEY"@.len() == 3);
    assert("TRY"@.len() == 3);
    assert("NOSUGGEST"@.len() == 9);
    assert("MAXCPDSUGS"@.len() == 10);
    assert("MAXNGRAMSUGS"@.len() == 12);
    assert("MAXDIFF"@.len() == 7);
    assert("ONLYMAXDIFF"@.len() == 11);
    assert("NOSPLITSUGS"@.len() == 11);
    assert("SUGSWITHDOTS"@.len() == 12);
    assert("REP"@.len() == 3);
    assert("MAP"@.len() == 3);
    assert("PHONE"@.len() == 5);
    assert("WARN"@.len() == 4);
    assert("FORBIDWARN"@.len() == 10);
    assert("BREAK"@.len() == 5);
    assert("COMPOUNDRULE"@.len() == 12);
    assert("COMPOUNDMIN"@.len() == 11);
    assert("COMPOUNDFLAG"@.len() == 12);
    assert("COMPOUNDBEGIN"@.len() == 13);
    assert("COMPOUNDLAST"@.len() == 12);
    assert("COMPOUNDMIDDLE"@.len() == 14);
    assert("ONLYINCOMPOUND"@.len() == 14);
    assert("COMPOUNDPERMITFLAG"@.len() == 18);
    assert("COMPOUNDFORBIDFLAG"@.len() == 18);
    assert("COMPOUNDMORESUFFIXES"@.len() == 20);
    assert("COMPOUNDROOT"@.len() == 12);
    assert("COMPOUNDWORDMAX"@.len() == 15);
    assert("CHECKCOMPOUNDDUP"@.len() == 16);
    assert("CHECKCOMPOUNDREP"@.len() == 16);
    assert("CHECKCOMPOUNDCASE"@.len() == 17);
    assert("CHECKCOMPOUNDTRIPLE"@.len() == 19);
    assert("SIMPLIFIEDTRIPLE"@.len() == 16);
    assert("CHECKCOMPOUNDPATTERN"@.len() == 20);
    assert("FORCEUCASE"@.len() == 10);
    assert("COMPOUNDSYLLABLE"@.len() == 16);
    assert("SYLLABLENUM"@.len() == 11);
    assert("PFX"@.len() == 3);
    assert("SFX"@.len() == 3);
    assert("CIRCUMFIX"@.len() == 9);
    assert("FORBIDDENWORD"@.len() == 13);
    assert("FULLSTRIP"@.len() == 9);
    assert("KEEPCASE"@.len() == 8);
    assert("ICONV"@.len() == 5);
    assert("OCONV"@.len() == 5);
    assert("LEMMA_PRESENT"@.len() == 13);
    assert("NEEDAFFIX"@.len() == 9);
    assert("PSEUDOROOT"@.len() == 10);
    assert("SUBSTANDARD"@.len() == 11);
    assert("WORDCHARS"@.len() == 9);
    assert("CHECKSHARPS"@.len() == 11);
    assert("NAME"@.len() == 4);
    assert("HOME"@.len() == 4);
    assert("VERSION"@.len() == 7);
    assert("AF"@[1] == 'F');
    assert("AM"@[1] == 'M');
    assert("BREAK"@[0] == 'B');
    assert("CHECKCOMPOUNDDUP"@[0] == 'C');
    assert("CHECKCOMPOUNDDUP"@[1] == 'H');
    assert("CHECKCOMPOUNDDUP"@[13] == 'D');
    assert("CHECKCOMPOUNDPATTERN"@[1] == 'H');
    assert("CHECKCOMPOUNDREP"@[0] == 'C');
    assert("CHECKCOMPOUNDREP"@[1] == 'H');
    assert("CHECKCOMPOUNDREP"@[13] == 'R');
    assert("CHECKSHARPS"@[0] == 'C');
    assert("CHECKSHARPS"@[1] == 'H');
    assert("CIRCUMFIX"@[0] == 'C');
    assert("COMPLEXPREFIXES"@[4] == 'L');
    assert("COMPOUNDBEGIN"@[0] == 'C');
    assert("COMPOUNDFLAG"@[0] == 'C');
    assert("COMPOUNDFLAG"@[8] == 'F');
    assert("COMPOUNDFORBIDFLAG"@[8] == 'F');
    assert("COMPOUNDLAST"@[0] == 'C');
    assert("COMPOUNDLAST"@[8] == 'L');
    assert("COMPOUNDMIDDLE"@[0] == 'C');
    assert("COMPOUNDMIN"@[0] == 'C');
    assert("COMPOUNDMIN"@[1] == 'O');
    assert("COMPOUNDMORESUFFIXES"@[1] == 'O');
    assert("COMPOUNDPERMITFLAG"@[8] == 'P');
    assert("COMPOUNDROOT"@[0] == 'C');
    assert("COMPOUNDROOT"@[8] == 'R');
    assert("COMPOUNDROOT"@[9] == 'O');
    assert("COMPOUNDRULE"@[0] == 'C');
    assert("COMPOUNDRULE"@[8] == 'R');
    assert("COMPOUNDRULE"@[9] == 'U');
    assert("COMPOUNDSYLLABLE"@[0] == 'C');
    assert("COMPOUNDSYLLABLE"@[1] == 'O');
    assert("COMPOUNDWORDMAX"@[4] == 'O');
    assert("FLAG"@[0] == 'F');
    assert("FORBIDDENWORD"@[0] == 'F');
    assert("FORBIDWARN"@[0] == 'F');
    assert("FORBIDWARN"@[3] == 'B');
    assert("FORCEUCASE"@[0] == 'F');
    assert("FORCEUCASE"@[3] == 'C');
    assert("FULLSTRIP"@[0] == 'F');
    assert("HOME"@[0] == 'H');
    assert("ICONV"@[0] == 'I');
    assert("KEY"@[0] == 'K');
    assert("LANG"@[0] == 'L');
    assert("LEMMA_PRESENT"@[0] == 'L');
    assert("MAP"@[0] == 'M');
    assert("MAXCPDSUGS"@[0] == 'M');
    assert("MAXDIFF"@[0] == 'M');
    assert("MAXNGRAMSUGS"@[0] == 'M');
    assert("NAME"@[0] == 'N');
    assert("NEEDAFFIX"@[0] == 'N');
    assert("NEEDAFFIX"@[1] == 'E');
    assert("NOSPLITSUGS"@[0] == 'N');
    assert("NOSUGGEST"@[0] == 'N');
    assert("NOSUGGEST"@[1] == 'O');
    assert("OCONV"@[0] == 'O');
    assert("ONLYINCOMPOUND"@[0] == 'O');
    assert("ONLYMAXDIFF"@[0] == 'O');
    assert("PFX"@[0] == 'P');
    assert("PHONE"@[0] == 'P');
    assert("PSEUDOROOT"@[0] == 'P');
    assert("REP"@[0] == 'R');
    assert("SET"@[0] == 'S');
    assert("SET"@[1] == 'E');
    assert("SFX"@[0] == 'S');
    assert("SFX"@[1] == 'F');
    assert("SIMPLIFIEDTRIPLE"@[0] == 'S');
    assert("SUBSTANDARD"@[0] == 'S');
    assert("SUBSTANDARD"@[1] == 'U');
    assert("SUGSWITHDOTS"@[0] == 'S');
    assert("SYLLABLENUM"@[0] == 'S');
    assert("SYLLABLENUM"@[1] == 'Y');
    assert("TRY"@[0] == 'T');
    assert("VERSION"@[0] == 'V');
    assert("WARN"@[0] == 'W');
    assert("WORDCHARS"@[0] == 'W');
    if k == 0 {
        assert(key_number("#"@) == 0);
    } else if k == 1 {
        assert(key_number("SET"@) == 1);
    } else if k == 2 {
        assert(key_number("FLAG"@) == 2);
    } else if k == 3 {
        assert(key_number("COMPLEXPREFIXES"@) == 3);
    } else if k == 4 {
        assert(key_number("LANG"@) == 4);
    } else if k == 5 {
        assert(key_number("IGNORE"@) == 5);
    } else if k == 6 {
        assert(key_number("AF"@) == 6);
    } else if k == 7 {
        assert(key_number("AM"@) == 7);
    } else if k == 8 {
        assert(key_number("KEY"@) == 8);
    } else if k == 9 {
        assert(key_number("TRY"@) == 9);
    } else if k == 10 {
        assert(key_number("NOSUGGEST"@) == 10);
    } else if k == 11 {
        assert(key_number("MAXCPDSUGS"@) == 11);
    } else if k == 12 {
        assert(key_number("MAXNGRAMSUGS"@) == 12);
    } else if k == 13 {
        assert(key_number("MAXDIFF"@) == 13);
    } else if k == 14 {
        assert(key_number("ONLYMAXDIFF"@) == 14);
    } else if k == 15 {
        assert(key_number("NOSPLITSUGS"@) == 15);
    } else if k == 16 {
        assert(key_number("SUGSWITHDOTS"@) == 16);
    } else if k == 17 {
        assert(key_number("REP"@) == 17);
    } else if k == 18 {
        assert(key_number("MAP"@) == 18);
    } else if k == 19 {
        assert(key_number("PHONE"@) == 19);
    } else if k == 20 {
        assert(key_number("WARN"@) == 20);
    } else if k == 21 {
        assert(key_number("FORBIDWARN"@) == 21);
    } else if k == 22 {
        assert(key_number("BREAK"@) == 22);
    } else if k == 23 {
        assert(key_number("COMPOUNDRULE"@) == 23);
    } else if k == 24 {
        assert(key_number("COMPOUNDMIN"@) == 24);
    } else if k == 25 {
        assert(key_number("COMPOUNDFLAG"@) == 25);
    } else if k == 26 {
        assert(key_number("COMPOUNDBEGIN"@) == 26);
    } else if k == 27 {
        assert(key_number("COMPOUNDLAST"@) == 27);
    } else if k == 28 {
        assert(key_number("COMPOUNDMIDDLE"@) == 28);
    } else if k == 29 {
        assert(key_number("ONLYINCOMPOUND"@) == 29);
    } else if k == 30 {
        assert(key_number("COMPOUNDPERMITFLAG"@) == 30);
    } else if k == 31 {
        assert(key_number("COMPOUNDFORBIDFLAG"@) == 31);
    } else if k == 32 {
        assert(key_number("COMPOUNDMORESUFFIXES"@) == 32);
    } else if k == 33 {
        assert(key_number("COMPOUNDROOT"@) == 33);
    } else if k == 34 {
        assert(key_number("COMPOUNDWORDMAX"@) == 34);
    } else if k == 35 {
        assert(key_number("CHECKCOMPOUNDDUP"@) == 35);
    } else if k == 36 {
        assert(key_number("CHECKCOMPOUNDREP"@) == 36);
    } else if k == 37 {
        assert(key_number("CHECKCOMPOUNDCASE"@) == 37);
    } else if k == 38 {
        assert(key_number("CHECKCOMPOUNDTRIPLE"@) == 38);
    } else if k == 39 {
        assert(key_number("SIMPLIFIEDTRIPLE"@) == 39);
    } else if k == 40 {
        assert(key_number("CHECKCOMPOUNDPATTERN"@) == 40);
    } else if k == 41 {
        assert(key_number("FORCEUCASE"@) == 41);
    } else if k == 42 {
        assert(key_number("COMPOUNDSYLLABLE"@) == 42);
    } else if k == 43 {
        assert(key_number("SYLLABLENUM"@) == 43);
    } else if k == 44 {
        assert(key_number("PFX"@) == 44);
    } else if k == 45 {
        assert(key_number("SFX"@) == 45);
    } else if k == 46 {
        assert(key_number("CIRCUMFIX"@) == 46);
    } else if k == 47 {
        assert(key_number("FORBIDDENWORD"@) == 47);
    } else if k == 48 {
        assert(key_number("FULLSTRIP"@) == 48);
    } else if k == 49 {
        assert(key_number("KEEPCASE"@) == 49);
    } else if k == 50 {
        assert(key_number("ICONV"@) == 50);
    } else if k == 51 {
        assert(key_number("OCONV"@) == 51);
    } else if k == 52 {
        assert(key_number("LEMMA_PRESENT"@) == 52);
    } else if k == 53 {
        assert(key_number("NEEDAFFIX"@) == 53);
    } else if k == 54 {
        assert(key_number("PSEUDOROOT"@) == 54);
    } else if k == 55 {
        assert(key_number("SUBSTANDARD"@) == 55);
    } else if k == 56 {
        assert(key_number("WORDCHARS"@) == 56);
    } else if k == 57 {
        assert(key_number("CHECKSHARPS"@) == 57);
    } else if k == 58 {
        assert(key_number("NAME"@) == 58);
    } else if k == 59 {
        assert(key_number("HOME"@) == 59);
    } else if k == 60 {
        assert(key_number("VERSION"@) == 60);
    }
}

/// Every entry's key is one of the 61 keys.
proof fn lemma_key_range(n: AffixNode)
    ensures
        n@.key < 61,
{
}

/// Different kinds of entries are written under different keys: two
/// entries of an affix file have the same key exactly when they are of the
/// same kind, whatever they hold.
pub proof fn law_keys_distinct(a: AffixNode, b: AffixNode)
    ensures
        key_name(a@.key) == key_name(b@.key) <==> a@.key == b@.key,
{
    lemma_key_range(a);
    lemma_key_range(b);
    lemma_key_number(a@.key);
    lemma_key_number(b@.key);
}

} // verus!

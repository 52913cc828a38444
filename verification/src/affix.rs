//! Representation of an affix file.

pub mod config;
pub mod rule_def;
pub mod tokens;
mod types;

use std::collections::BTreeMap;
use std::sync::Arc;
use vstd::prelude::*;

pub use self::config::Config;
pub use self::types::{
    compound_pattern_of, encoding_name, encoding_of, encoding_of_lower, flag_error, flag_of,
    flag_text, flag_type_name, flags_of, flag_type_of, law_encoding_names, law_encoding_round_trip, law_flag_round_trip, law_flag_text_round_trip,
    part_of_speech, rule_type_of, CompoundPattern, CompoundSyllable, Conversion, Encoding, Flag,
    FlagType, PartOfSpeech, Phonetic, RuleType, COMPOUND_PATTERN_RE,
};
use crate::dict::{AfxRule, FlagValue};
use crate::dict::flags::{flag_entry, FlagEntry};
use crate::error::{BuildError, Error, ParseError, ParseErrorKind};
use crate::parser_affix::node::{
    conversion_view, conversions_view, group_view, groups_view, pattern_view, patterns_view,
    phonetic_view, phonetics_view, strings_view, CompoundPatternView,
    ConversionView, GroupView, NodeValue, NodeView, PhoneticView,
};
use crate::parser_affix::{nodes_view, parse_affix, parse_from, AffixNode, ParsedRuleGroup, Parsed};

verus! {

broadcast use vstd::laws_cmp::group_laws_cmp;

/// A representation of an affix file.
#[derive(Clone, Debug, PartialEq, Eq)]
pub struct ParsedCfg {
    /// Charset to use; only UTF-8 is supported, but the affix file must
    /// still declare it accurately
    encoding: Encoding,
    /// The type of flag in the `.dic` file
    flag_type: FlagType,
    /// Twofold prefix skipping for e.g. right-to-left languages
    complex_prefixes: bool,
    /// Language code
    lang: String,
    /// List of characters to ignore
    ignore_chars: Vec<char>,
    /// List of usable flag vectors
    affix_alias: Vec<String>,
    /// List of usable morph vectors
    morph_alias: Vec<String>,
    /// List of e.g. "qwerty", "asdfg" that define neighbors
    neighbor_keys: Vec<String>,
    /// Rules for suggestion replacements to try
    replacements: Vec<Conversion>,
    /// Suggest words that differ by one try character
    try_characters: String,
    /// Flag used to indicate words that should not be suggested
    nosuggest_flag: Option<u32>,
    /// Note rare (i.e. commonly misspelled) words with this flag
    warn_rare_flag: Option<u32>,
    /// Don't suggest anything with spaces
    no_split_suggestions: bool,
    /// If a dot comes with the spellcheck, return one with a suggestion word
    keep_term_dots: bool,
    /// Whether to never suggest words with the warn flag
    forbid_warn_words: bool,
    /// Replace commonly misused letters
    maps: Vec<(char, char)>,
    /// Phonetic replacements for similar words
    phonetics: Vec<Phonetic>,
    /// Max number of ngram suggestions
    ngram_sug_max: u16,
    /// N-gram similarity limit
    ngram_diff_max: u8,
    /// Remove all suggestions except the diff max
    ngram_limit_to_diff_max: bool,
    /// Compounding-related settings
    compound_config: CompoundConfig,
    /// Rules for setting prefixes and suffixes
    afx_rule_groups: Vec<ParsedRuleGroup>,
    afx_circumflex_flag: Option<u32>,
    forbidden_word_flag: Option<u32>,
    afx_full_strip: bool,
    afx_keep_case_flag: Option<u32>,
    input_conversions: Vec<Conversion>,
    output_conversions: Vec<Conversion>,
    afx_needed_flag: Option<u32>,
    afx_substandard_flag: Option<u32>,
    afx_word_chars: String,
    afx_check_sharps: bool,
    name: String,
    home_page: String,
    version: String,
}

/// Compounding settings.
#[derive(Clone, Debug, PartialEq, Eq)]
pub struct CompoundConfig {
    /// Something like `-` to indicate whether both sides should be checked
    break_separators: Vec<String>,
    /// Maximum compound word suggestions
    sug_max: u16,
    /// Regex-like rules for compound words
    rules: Vec<String>,
    /// Minimum length of words used in a compound
    min_length: u16,
    /// Words with this flag may be in compounds
    flag: Option<u32>,
    /// Words with this flag may start a compound
    begin_flag: Option<u32>,
    /// Words with this flag may end a compound
    end_flag: Option<u32>,
    /// Words with this flag may be in the middle of a compound
    middle_flag: Option<u32>,
    /// Words with this flag can't be on their own, only in compounds
    only_flag: Option<u32>,
    /// Allow these words inside compounds
    permit_flag: Option<u32>,
    forbid_flag: Option<u32>,
    more_suffixes: bool,
    root_flag: Option<u32>,
    word_max: u16,
    forbid_dup: bool,
    forbid_repeat: bool,
    check_case: bool,
    check_triple: bool,
    simplify_triple: bool,
    forbid_pats: Vec<CompoundPattern>,
    force_upper_flag: Option<u32>,
    syllable: CompoundSyllable,
    syllable_num: String,
}

/// The value of a [`CompoundConfig`].
pub struct CompoundView {
    pub break_separators: Seq<Seq<char>>,
    pub sug_max: nat,
    pub rules: Seq<Seq<char>>,
    pub min_length: nat,
    pub flag: Option<u32>,
    pub begin_flag: Option<u32>,
    pub end_flag: Option<u32>,
    pub middle_flag: Option<u32>,
    pub only_flag: Option<u32>,
    pub permit_flag: Option<u32>,
    pub forbid_flag: Option<u32>,
    pub more_suffixes: bool,
    pub root_flag: Option<u32>,
    pub word_max: nat,
    pub forbid_dup: bool,
    pub forbid_repeat: bool,
    pub check_case: bool,
    pub check_triple: bool,
    pub simplify_triple: bool,
    pub forbid_pats: Seq<CompoundPatternView>,
    pub force_upper_flag: Option<u32>,
    pub syllable: (nat, Seq<char>),
    pub syllable_num: Seq<char>,
}

/// The value of a [`ParsedCfg`].
pub struct CfgView {
    pub encoding: Encoding,
    pub flag_type: FlagType,
    pub complex_prefixes: bool,
    pub lang: Seq<char>,
    pub ignore_chars: Seq<char>,
    pub affix_alias: Seq<Seq<char>>,
    pub morph_alias: Seq<Seq<char>>,
    pub neighbor_keys: Seq<Seq<char>>,
    pub replacements: Seq<ConversionView>,
    pub try_characters: Seq<char>,
    pub nosuggest_flag: Option<u32>,
    pub warn_rare_flag: Option<u32>,
    pub no_split_suggestions: bool,
    pub keep_term_dots: bool,
    pub forbid_warn_words: bool,
    pub maps: Seq<(char, char)>,
    pub phonetics: Seq<PhoneticView>,
    pub ngram_sug_max: nat,
    pub ngram_diff_max: nat,
    pub ngram_limit_to_diff_max: bool,
    pub compound: CompoundView,
    pub afx_rule_groups: Seq<GroupView>,
    pub afx_circumflex_flag: Option<u32>,
    pub forbidden_word_flag: Option<u32>,
    pub afx_full_strip: bool,
    pub afx_keep_case_flag: Option<u32>,
    pub input_conversions: Seq<ConversionView>,
    pub output_conversions: Seq<ConversionView>,
    pub afx_needed_flag: Option<u32>,
    pub afx_substandard_flag: Option<u32>,
    pub afx_word_chars: Seq<char>,
    pub afx_check_sharps: bool,
    pub name: Seq<char>,
    pub home_page: Seq<char>,
    pub version: Seq<char>,
}

impl CompoundConfig {
    pub closed spec fn view_of(&self) -> CompoundView {
        CompoundView {
            break_separators: strings_view(self.break_separators@),
            sug_max: self.sug_max as nat,
            rules: strings_view(self.rules@),
            min_length: self.min_length as nat,
            flag: self.flag,
            begin_flag: self.begin_flag,
            end_flag: self.end_flag,
            middle_flag: self.middle_flag,
            only_flag: self.only_flag,
            permit_flag: self.permit_flag,
            forbid_flag: self.forbid_flag,
            more_suffixes: self.more_suffixes,
            root_flag: self.root_flag,
            word_max: self.word_max as nat,
            forbid_dup: self.forbid_dup,
            forbid_repeat: self.forbid_repeat,
            check_case: self.check_case,
            check_triple: self.check_triple,
            simplify_triple: self.simplify_triple,
            forbid_pats: patterns_view(self.forbid_pats@),
            force_upper_flag: self.force_upper_flag,
            syllable: (self.syllable.count as nat, self.syllable.vowels@),
            syllable_num: self.syllable_num@,
        }
    }
}

impl View for ParsedCfg {
    type V = CfgView;

    closed spec fn view(&self) -> CfgView {
        CfgView {
            encoding: self.encoding,
            flag_type: self.flag_type,
            complex_prefixes: self.complex_prefixes,
            lang: self.lang@,
            ignore_chars: self.ignore_chars@,
            affix_alias: strings_view(self.affix_alias@),
            morph_alias: strings_view(self.morph_alias@),
            neighbor_keys: strings_view(self.neighbor_keys@),
            replacements: conversions_view(self.replacements@),
            try_characters: self.try_characters@,
            nosuggest_flag: self.nosuggest_flag,
            warn_rare_flag: self.warn_rare_flag,
            no_split_suggestions: self.no_split_suggestions,
            keep_term_dots: self.keep_term_dots,
            forbid_warn_words: self.forbid_warn_words,
            maps: self.maps@,
            phonetics: phonetics_view(self.phonetics@),
            ngram_sug_max: self.ngram_sug_max as nat,
            ngram_diff_max: self.ngram_diff_max as nat,
            ngram_limit_to_diff_max: self.ngram_limit_to_diff_max,
            compound: self.compound_config.view_of(),
            afx_rule_groups: groups_view(self.afx_rule_groups@),
            afx_circumflex_flag: self.afx_circumflex_flag,
            forbidden_word_flag: self.forbidden_word_flag,
            afx_full_strip: self.afx_full_strip,
            afx_keep_case_flag: self.afx_keep_case_flag,
            input_conversions: conversions_view(self.input_conversions@),
            output_conversions: conversions_view(self.output_conversions@),
            afx_needed_flag: self.afx_needed_flag,
            afx_substandard_flag: self.afx_substandard_flag,
            afx_word_chars: self.afx_word_chars@,
            afx_check_sharps: self.afx_check_sharps,
            name: self.name@,
            home_page: self.home_page@,
            version: self.version@,
        }
    }
}

pub open spec fn vtext(v: NodeValue) -> Seq<char> {
    match v {
        NodeValue::Text(x) => x,
        _ => Seq::empty(),
    }
}

pub open spec fn vchars(v: NodeValue) -> Seq<char> {
    match v {
        NodeValue::Chars(x) => x,
        _ => Seq::empty(),
    }
}

pub open spec fn vtexts(v: NodeValue) -> Seq<Seq<char>> {
    match v {
        NodeValue::Texts(x) => x,
        _ => Seq::empty(),
    }
}

pub open spec fn vnum(v: NodeValue) -> nat {
    match v {
        NodeValue::Number(x) => x,
        _ => 0,
    }
}

pub open spec fn venc(v: NodeValue) -> Encoding {
    match v {
        NodeValue::Encoding(x) => x,
        _ => Encoding::Utf8,
    }
}

pub open spec fn vconvs(v: NodeValue) -> Seq<ConversionView> {
    match v {
        NodeValue::Conversions(x) => x,
        _ => Seq::empty(),
    }
}

pub open spec fn vmaps(v: NodeValue) -> Seq<(char, char)> {
    match v {
        NodeValue::Maps(x) => x,
        _ => Seq::empty(),
    }
}

pub open spec fn vphones(v: NodeValue) -> Seq<PhoneticView> {
    match v {
        NodeValue::Phonetics(x) => x,
        _ => Seq::empty(),
    }
}

pub open spec fn vpats(v: NodeValue) -> Seq<CompoundPatternView> {
    match v {
        NodeValue::Patterns(x) => x,
        _ => Seq::empty(),
    }
}

pub open spec fn vsyll(v: NodeValue) -> (nat, Seq<char>) {
    match v {
        NodeValue::Syllable(n, x) => (n, x),
        _ => (0, Seq::empty()),
    }
}

pub open spec fn vgroup(v: NodeValue) -> GroupView {
    match v {
        NodeValue::Group(g) => g,
        _ => arbitrary(),
    }
}

/// The flag that the text `text` writes, or the text itself when it is not
/// a flag of type `ft`.
pub open spec fn flag_setting(ft: FlagType, text: Seq<char>) -> Result<Option<u32>, Seq<char>> {
    match flag_of(ft, text) {
        Some(v) => Ok(Some(v)),
        None => Err(text),
    }
}

/// The settings after the entry `n`, for flags of type `ft`; an entry that
/// names a flag that is not of type `ft` gives that text as the error.
pub open spec fn apply_node(c: CfgView, n: NodeView, ft: FlagType) -> Result<CfgView, Seq<char>> {
    if n.key <= 7 {
        apply_keys0(c, n, ft)
    } else if n.key <= 15 {
        apply_keys1(c, n, ft)
    } else if n.key <= 23 {
        apply_keys2(c, n, ft)
    } else if n.key <= 31 {
        apply_keys3(c, n, ft)
    } else if n.key <= 39 {
        apply_keys4(c, n, ft)
    } else if n.key <= 47 {
        apply_keys5(c, n, ft)
    } else if n.key <= 55 {
        apply_keys6(c, n, ft)
    } else {
        apply_keys7(c, n, ft)
    }
}

/// [`apply_node`] for the keys 0 to 7.
pub open spec fn apply_keys0(c: CfgView, n: NodeView, ft: FlagType) -> Result<CfgView, Seq<char>> {
    if n.key == 0 {
        Ok(c)
    } else if n.key == 1 {
        Ok(CfgView { encoding: venc(n.value), ..c })
    } else if n.key == 2 {
        Ok(c)
    } else if n.key == 3 {
        Ok(CfgView { complex_prefixes: true, ..c })
    } else if n.key == 4 {
        Ok(CfgView { lang: vtext(n.value), ..c })
    } else if n.key == 5 {
        Ok(CfgView { ignore_chars: vchars(n.value), ..c })
    } else if n.key == 6 {
        Ok(CfgView { affix_alias: vtexts(n.value), ..c })
    } else {
        Ok(CfgView { morph_alias: vtexts(n.value), ..c })
    }
}

/// [`apply_node`] for the keys 8 to 15.
pub open spec fn apply_keys1(c: CfgView, n: NodeView, ft: FlagType) -> Result<CfgView, Seq<char>> {
    if n.key == 8 {
        Ok(CfgView { neighbor_keys: vtexts(n.value), ..c })
    } else if n.key == 9 {
        Ok(CfgView { try_characters: vtext(n.value), ..c })
    } else if n.key == 10 {
        match flag_setting(ft, vtext(n.value)) {
            Ok(x) => Ok(CfgView { nosuggest_flag: x, ..c }),
            Err(e) => Err(e),
        }
    } else if n.key == 11 {
        Ok(CfgView { compound: CompoundView { sug_max: vnum(n.value), ..c.compound }, ..c })
    } else if n.key == 12 {
        Ok(CfgView { ngram_sug_max: vnum(n.value), ..c })
    } else if n.key == 13 {
        Ok(CfgView { ngram_diff_max: vnum(n.value), ..c })
    } else if n.key == 14 {
        Ok(CfgView { ngram_limit_to_diff_max: true, ..c })
    } else {
        Ok(CfgView { no_split_suggestions: true, ..c })
    }
}

/// [`apply_node`] for the keys 16 to 23.
pub open spec fn apply_keys2(c: CfgView, n: NodeView, ft: FlagType) -> Result<CfgView, Seq<char>> {
    if n.key == 16 {
        Ok(CfgView { keep_term_dots: true, ..c })
    } else if n.key == 17 {
        Ok(CfgView { replacements: vconvs(n.value), ..c })
    } else if n.key == 18 {
        Ok(CfgView { maps: vmaps(n.value), ..c })
    } else if n.key == 19 {
        Ok(CfgView { phonetics: vphones(n.value), ..c })
    } else if n.key == 20 {
        match flag_setting(ft, vtext(n.value)) {
            Ok(x) => Ok(CfgView { warn_rare_flag: x, ..c }),
            Err(e) => Err(e),
        }
    } else if n.key == 21 {
        Ok(CfgView { forbid_warn_words: true, ..c })
    } else if n.key == 22 {
        Ok(CfgView { compound: CompoundView { break_separators: vtexts(n.value), ..c.compound }, ..c })
    } else {
        Ok(CfgView { compound: CompoundView { rules: vtexts(n.value), ..c.compound }, ..c })
    }
}

/// [`apply_node`] for the keys 24 to 31.
pub open spec fn apply_keys3(c: CfgView, n: NodeView, ft: FlagType) -> Result<CfgView, Seq<char>> {
    if n.key == 24 {
        Ok(CfgView { compound: CompoundView { min_length: vnum(n.value), ..c.compound }, ..c })
    } else if n.key == 25 {
        match flag_setting(ft, vtext(n.value)) {
            Ok(x) => Ok(CfgView { compound: CompoundView { flag: x, ..c.compound }, ..c }),
            Err(e) => Err(e),
        }
    } else if n.key == 26 {
        match flag_setting(ft, vtext(n.value)) {
            Ok(x) => Ok(CfgView { compound: CompoundView { begin_flag: x, ..c.compound }, ..c }),
            Err(e) => Err(e),
        }
    } else if n.key == 27 {
        match flag_setting(ft, vtext(n.value)) {
            Ok(x) => Ok(CfgView { compound: CompoundView { end_flag: x, ..c.compound }, ..c }),
            Err(e) => Err(e),
        }
    } else if n.key == 28 {
        match flag_setting(ft, vtext(n.value)) {
            Ok(x) => Ok(CfgView { compound: CompoundView { middle_flag: x, ..c.compound }, ..c }),
            Err(e) => Err(e),
        }
    } else if n.key == 29 {
        match flag_setting(ft, vtext(n.value)) {
            Ok(x) => Ok(CfgView { compound: CompoundView { only_flag: x, ..c.compound }, ..c }),
            Err(e) => Err(e),
        }
    } else if n.key == 30 {
        match flag_setting(ft, vtext(n.value)) {
            Ok(x) => Ok(CfgView { compound: CompoundView { permit_flag: x, ..c.compound }, ..c }),
            Err(e) => Err(e),
        }
    } else {
        match flag_setting(ft, vtext(n.value)) {
            Ok(x) => Ok(CfgView { compound: CompoundView { forbid_flag: x, ..c.compound }, ..c }),
            Err(e) => Err(e),
        }
    }
}

/// [`apply_node`] for the keys 32 to 39.
pub open spec fn apply_keys4(c: CfgView, n: NodeView, ft: FlagType) -> Result<CfgView, Seq<char>> {
    if n.key == 32 {
        Ok(CfgView { compound: CompoundView { more_suffixes: true, ..c.compound }, ..c })
    } else if n.key == 33 {
        match flag_setting(ft, vtext(n.value)) {
            Ok(x) => Ok(CfgView { compound: CompoundView { root_flag: x, ..c.compound }, ..c }),
            Err(e) => Err(e),
        }
    } else if n.key == 34 {
        Ok(CfgView { compound: CompoundView { word_max: vnum(n.value), ..c.compound }, ..c })
    } else if n.key == 35 {
        Ok(CfgView { compound: CompoundView { forbid_dup: true, ..c.compound }, ..c })
    } else if n.key == 36 {
        Ok(CfgView { compound: CompoundView { forbid_repeat: true, ..c.compound }, ..c })
    } else if n.key == 37 {
        Ok(CfgView { compound: CompoundView { check_case: true, ..c.compound }, ..c })
    } else if n.key == 38 {
        Ok(CfgView { compound: CompoundView { check_triple: true, ..c.compound }, ..c })
    } else {
        Ok(CfgView { compound: CompoundView { simplify_triple: true, ..c.compound }, ..c })
    }
}

/// [`apply_node`] for the keys 40 to 47.
pub open spec fn apply_keys5(c: CfgView, n: NodeView, ft: FlagType) -> Result<CfgView, Seq<char>> {
    if n.key == 40 {
        Ok(CfgView { compound: CompoundView { forbid_pats: vpats(n.value), ..c.compound }, ..c })
    } else if n.key == 41 {
        match flag_setting(ft, vtext(n.value)) {
            Ok(x) => Ok(CfgView { compound: CompoundView { force_upper_flag: x, ..c.compound }, ..c }),
            Err(e) => Err(e),
        }
    } else if n.key == 42 {
        Ok(CfgView { compound: CompoundView { syllable: vsyll(n.value), ..c.compound }, ..c })
    } else if n.key == 43 {
        Ok(CfgView { compound: CompoundView { syllable_num: vtext(n.value), ..c.compound }, ..c })
    } else if n.key == 44 {
        Ok(CfgView { afx_rule_groups: c.afx_rule_groups.push(vgroup(n.value)), ..c })
    } else if n.key == 45 {
        Ok(CfgView { afx_rule_groups: c.afx_rule_groups.push(vgroup(n.value)), ..c })
    } else if n.key == 46 {
        match flag_setting(ft, vtext(n.value)) {
            Ok(x) => Ok(CfgView { afx_circumflex_flag: x, ..c }),
            Err(e) => Err(e),
        }
    } else {
        match flag_setting(ft, vtext(n.value)) {
            Ok(x) => Ok(CfgView { forbidden_word_flag: x, ..c }),
            Err(e) => Err(e),
        }
    }
}

/// [`apply_node`] for the keys 48 to 55.
pub open spec fn apply_keys6(c: CfgView, n: NodeView, ft: FlagType) -> Result<CfgView, Seq<char>> {
    if n.key == 48 {
        Ok(CfgView { afx_full_strip: true, ..c })
    } else if n.key == 49 {
        match flag_setting(ft, vtext(n.value)) {
            Ok(x) => Ok(CfgView { afx_keep_case_flag: x, ..c }),
            Err(e) => Err(e),
        }
    } else if n.key == 50 {
        Ok(CfgView { input_conversions: vconvs(n.value), ..c })
    } else if n.key == 51 {
        Ok(CfgView { output_conversions: vconvs(n.value), ..c })
    } else if n.key == 52 {
        Ok(c)
    } else if n.key == 53 {
        match flag_setting(ft, vtext(n.value)) {
            Ok(x) => Ok(CfgView { afx_needed_flag: x, ..c }),
            Err(e) => Err(e),
        }
    } else if n.key == 54 {
        Ok(c)
    } else {
        match flag_setting(ft, vtext(n.value)) {
            Ok(x) => Ok(CfgView { afx_substandard_flag: x, ..c }),
            Err(e) => Err(e),
        }
    }
}

/// [`apply_node`] for the keys 56 to 60.
pub open spec fn apply_keys7(c: CfgView, n: NodeView, ft: FlagType) -> Result<CfgView, Seq<char>> {
    if n.key == 56 {
        Ok(CfgView { afx_word_chars: vtext(n.value), ..c })
    } else if n.key == 57 {
        Ok(CfgView { afx_check_sharps: true, ..c })
    } else if n.key == 58 {
        Ok(CfgView { name: vtext(n.value), ..c })
    } else if n.key == 59 {
        Ok(CfgView { home_page: vtext(n.value), ..c })
    } else {
        Ok(CfgView { version: vtext(n.value), ..c })
    }
}

/// The settings after the entries `ns`, in order, for flags of type `ft`;
/// the first entry that names a flag not of type `ft` gives the error.
pub open spec fn cfg_fold(c: CfgView, ns: Seq<NodeView>, ft: FlagType) -> Result<CfgView, Seq<char>>
    decreases ns.len(),
{
    if ns.len() == 0 {
        Ok(c)
    } else {
        match apply_node(c, ns[0], ft) {
            Ok(c2) => cfg_fold(c2, ns.drop_first(), ft),
            Err(e) => Err(e),
        }
    }
}

/// The flag type that the first `FLAG` entry of `ns` sets, if any.
pub open spec fn first_flag_type(ns: Seq<NodeView>) -> Option<FlagType>
    decreases ns.len(),
{
    if ns.len() == 0 {
        None
    } else if ns[0].key == 2 {
        match ns[0].value {
            NodeValue::FlagType(f) => Some(f),
            _ => None,
        }
    } else {
        first_flag_type(ns.drop_first())
    }
}

/// The flag type of a file with entries `ns`: its first `FLAG` entry, or
/// UTF-8.
pub open spec fn flag_type_in(ns: Seq<NodeView>) -> FlagType {
    match first_flag_type(ns) {
        Some(f) => f,
        None => FlagType::Utf8,
    }
}

impl ParsedCfg {
    /// Apply one entry of an affix file to these settings.
    fn apply(&mut self, node: AffixNode) -> (r: Result<(), Error>)
        ensures
            final(self).flag_type == old(self).flag_type,
            match apply_node(old(self)@, node@, old(self).flag_type) {
                Ok(c) => r is Ok && final(self)@ == c,
                Err(text) => r matches Err(Error::Parse(pe)) && pe.context() == text
                    && pe.spec_span() is None && flag_error(old(self).flag_type, text, pe.kind()),
            },
    {
        match node {
            AffixNode::Comment => Ok(()),
            AffixNode::Encoding(_) => self.apply_set(node),
            AffixNode::FlagType(_) => Ok(()),
            AffixNode::ComplexPrefixes => self.apply_complexprefixes(node),
            AffixNode::Language(_) => self.apply_lang(node),
            AffixNode::IgnoreChars(_) => self.apply_ignore(node),
            AffixNode::AffixAlias(_) => self.apply_af(node),
            AffixNode::MorphAlias(_) => self.apply_am(node),
            AffixNode::NeighborKeys(_) => self.apply_key(node),
            AffixNode::TryCharacters(_) => self.apply_try(node),
            AffixNode::NoSuggestFlag(_) => self.apply_nosuggest(node),
            AffixNode::CompoundSugMax(_) => self.apply_maxcpdsugs(node),
            AffixNode::NGramSugMax(_) => self.apply_maxngramsugs(node),
            AffixNode::NGramDiffMax(_) => self.apply_maxdiff(node),
            AffixNode::NGramLimitToDiffMax => self.apply_onlymaxdiff(node),
            AffixNode::NoSplitSuggestions => self.apply_nosplitsugs(node),
            AffixNode::KeepTermDots => self.apply_sugswithdots(node),
            AffixNode::Replacement(_) => self.apply_rep(node),
            AffixNode::Mapping(_) => self.apply_map(node),
            AffixNode::Phonetic(_) => self.apply_phone(node),
            AffixNode::WarnRareFlag(_) => self.apply_warn(node),
            AffixNode::ForbidWarnWords => self.apply_forbidwarn(node),
            AffixNode::BreakSeparator(_) => self.apply_break(node),
            AffixNode::CompoundRule(_) => self.apply_compoundrule(node),
            AffixNode::CompoundMinLen(_) => self.apply_compoundmin(node),
            AffixNode::CompoundFlag(_) => self.apply_compoundflag(node),
            AffixNode::CompoundBeginFlag(_) => self.apply_compoundbegin(node),
            AffixNode::CompoundEndFlag(_) => self.apply_compoundlast(node),
            AffixNode::CompoundMiddleFlag(_) => self.apply_compoundmiddle(node),
            AffixNode::CompoundOnlyFlag(_) => self.apply_onlyincompound(node),
            AffixNode::CompoundPermitFlag(_) => self.apply_compoundpermitflag(node),
            AffixNode::CompoundForbidFlag(_) => self.apply_compoundforbidflag(node),
            AffixNode::CompoundMoreSuffixes => self.apply_compoundmoresuffixes(node),
            AffixNode::CompoundRootFlag(_) => self.apply_compoundroot(node),
            AffixNode::CompoundWordMax(_) => self.apply_compoundwordmax(node),
            AffixNode::CompoundForbidDup => self.apply_checkcompounddup(node),
            AffixNode::CompoundForbidRepeat => self.apply_checkcompoundrep(node),
            AffixNode::CompoundCheckCase => self.apply_checkcompoundcase(node),
            AffixNode::CompoundCheckTriple => self.apply_checkcompoundtriple(node),
            AffixNode::CompoundSimplifyTriple => self.apply_simplifiedtriple(node),
            AffixNode::CompoundForbidPats(_) => self.apply_checkcompoundpattern(node),
            AffixNode::CompoundForceUpFlag(_) => self.apply_forceucase(node),
            AffixNode::CompoundSyllable(_) => self.apply_compoundsyllable(node),
            AffixNode::SyllableNum(_) => self.apply_syllablenum(node),
            AffixNode::Prefix(_) => self.apply_pfx(node),
            AffixNode::Suffix(_) => self.apply_sfx(node),
            AffixNode::AfxCircumfixFlag(_) => self.apply_circumfix(node),
            AffixNode::ForbiddenWordFlag(_) => self.apply_forbiddenword(node),
            AffixNode::AfxFullStrip => self.apply_fullstrip(node),
            AffixNode::AfxKeepCaseFlag(_) => self.apply_keepcase(node),
            AffixNode::AfxInputConversion(_) => self.apply_iconv(node),
            AffixNode::AfxOutputConversion(_) => self.apply_oconv(node),
            AffixNode::AfxLemmaPresentFlag(_) => Ok(()),
            AffixNode::AfxNeededFlag(_) => self.apply_needaffix(node),
            AffixNode::AfxPseudoRootFlag(_) => Ok(()),
            AffixNode::AfxSubstandardFlag(_) => self.apply_substandard(node),
            AffixNode::AfxWordChars(_) => self.apply_wordchars(node),
            AffixNode::AfxCheckSharps => self.apply_checksharps(node),
            AffixNode::Name(_) => self.apply_name(node),
            AffixNode::HomePage(_) => self.apply_home(node),
            AffixNode::Version(_) => self.apply_version(node),
        }
    }

    fn apply_set(&mut self, node: AffixNode) -> (r: Result<(), Error>)
        requires
            node is Encoding,
        ensures
            final(self).flag_type == old(self).flag_type,
            match apply_node(old(self)@, node@, old(self).flag_type) {
                Ok(c) => r is Ok && final(self)@ == c,
                Err(text) => r matches Err(Error::Parse(pe)) && pe.context() == text
                    && pe.spec_span() is None && flag_error(old(self).flag_type, text, pe.kind()),
            },
    {
        match node {
            AffixNode::Encoding(v) => {
                self.encoding = v;
                Ok(())
            },
            _ => Ok(()),
        }
    }

    fn apply_complexprefixes(&mut self, node: AffixNode) -> (r: Result<(), Error>)
        requires
            node is ComplexPrefixes,
        ensures
            final(self).flag_type == old(self).flag_type,
            match apply_node(old(self)@, node@, old(self).flag_type) {
                Ok(c) => r is Ok && final(self)@ == c,
                Err(text) => r matches Err(Error::Parse(pe)) && pe.context() == text
                    && pe.spec_span() is None && flag_error(old(self).flag_type, text, pe.kind()),
            },
    {
        match node {
            AffixNode::ComplexPrefixes => {
                self.complex_prefixes = true;
                Ok(())
            },
            _ => Ok(()),
        }
    }

    fn apply_lang(&mut self, node: AffixNode) -> (r: Result<(), Error>)
        requires
            node is Language,
        ensures
            final(self).flag_type == old(self).flag_type,
            match apply_node(old(self)@, node@, old(self).flag_type) {
                Ok(c) => r is Ok && final(self)@ == c,
                Err(text) => r matches Err(Error::Parse(pe)) && pe.context() == text
                    && pe.spec_span() is None && flag_error(old(self).flag_type, text, pe.kind()),
            },
    {
        match node {
            AffixNode::Language(v) => {
                self.lang = v;
                Ok(())
            },
            _ => Ok(()),
        }
    }

    fn apply_ignore(&mut self, node: AffixNode) -> (r: Result<(), Error>)
        requires
            node is IgnoreChars,
        ensures
            final(self).flag_type == old(self).flag_type,
            match apply_node(old(self)@, node@, old(self).flag_type) {
                Ok(c) => r is Ok && final(self)@ == c,
                Err(text) => r matches Err(Error::Parse(pe)) && pe.context() == text
                    && pe.spec_span() is None && flag_error(old(self).flag_type, text, pe.kind()),
            },
    {
        match node {
            AffixNode::IgnoreChars(v) => {
                self.ignore_chars = v;
                Ok(())
            },
            _ => Ok(()),
        }
    }

    fn apply_af(&mut self, node: AffixNode) -> (r: Result<(), Error>)
        requires
            node is AffixAlias,
        ensures
            final(self).flag_type == old(self).flag_type,
            match apply_node(old(self)@, node@, old(self).flag_type) {
                Ok(c) => r is Ok && final(self)@ == c,
                Err(text) => r matches Err(Error::Parse(pe)) && pe.context() == text
                    && pe.spec_span() is None && flag_error(old(self).flag_type, text, pe.kind()),
            },
    {
        match node {
            AffixNode::AffixAlias(v) => {
                self.affix_alias = v;
                Ok(())
            },
            _ => Ok(()),
        }
    }

    fn apply_am(&mut self, node: AffixNode) -> (r: Result<(), Error>)
        requires
            node is MorphAlias,
        ensures
            final(self).flag_type == old(self).flag_type,
            match apply_node(old(self)@, node@, old(self).flag_type) {
                Ok(c) => r is Ok && final(self)@ == c,
                Err(text) => r matches Err(Error::Parse(pe)) && pe.context() == text
                    && pe.spec_span() is None && flag_error(old(self).flag_type, text, pe.kind()),
            },
    {
        match node {
            AffixNode::MorphAlias(v) => {
                self.morph_alias = v;
                Ok(())
            },
            _ => Ok(()),
        }
    }

    fn apply_key(&mut self, node: AffixNode) -> (r: Result<(), Error>)
        requires
            node is NeighborKeys,
        ensures
            final(self).flag_type == old(self).flag_type,
            match apply_node(old(self)@, node@, old(self).flag_type) {
                Ok(c) => r is Ok && final(self)@ == c,
                Err(text) => r matches Err(Error::Parse(pe)) && pe.context() == text
                    && pe.spec_span() is None && flag_error(old(self).flag_type, text, pe.kind()),
            },
    {
        match node {
            AffixNode::NeighborKeys(v) => {
                self.neighbor_keys = v;
                Ok(())
            },
            _ => Ok(()),
        }
    }

    fn apply_try(&mut self, node: AffixNode) -> (r: Result<(), Error>)
        requires
            node is TryCharacters,
        ensures
            final(self).flag_type == old(self).flag_type,
            match apply_node(old(self)@, node@, old(self).flag_type) {
                Ok(c) => r is Ok && final(self)@ == c,
                Err(text) => r matches Err(Error::Parse(pe)) && pe.context() == text
                    && pe.spec_span() is None && flag_error(old(self).flag_type, text, pe.kind()),
            },
    {
        match node {
            AffixNode::TryCharacters(v) => {
                self.try_characters = v;
                Ok(())
            },
            _ => Ok(()),
        }
    }

    fn apply_nosuggest(&mut self, node: AffixNode) -> (r: Result<(), Error>)
        requires
            node is NoSuggestFlag,
        ensures
            final(self).flag_type == old(self).flag_type,
            match apply_node(old(self)@, node@, old(self).flag_type) {
                Ok(c) => r is Ok && final(self)@ == c,
                Err(text) => r matches Err(Error::Parse(pe)) && pe.context() == text
                    && pe.spec_span() is None && flag_error(old(self).flag_type, text, pe.kind()),
            },
    {
        match node {
            AffixNode::NoSuggestFlag(v) => match self.convert_flag(v.as_str()) {
                Ok(f) => {
                    self.nosuggest_flag = Some(f);
                    Ok(())
                },
                Err(e) => Err(Error::Parse(e)),
            },
            _ => Ok(()),
        }
    }

    fn apply_maxcpdsugs(&mut self, node: AffixNode) -> (r: Result<(), Error>)
        requires
            node is CompoundSugMax,
        ensures
            final(self).flag_type == old(self).flag_type,
            match apply_node(old(self)@, node@, old(self).flag_type) {
                Ok(c) => r is Ok && final(self)@ == c,
                Err(text) => r matches Err(Error::Parse(pe)) && pe.context() == text
                    && pe.spec_span() is None && flag_error(old(self).flag_type, text, pe.kind()),
            },
    {
        match node {
            AffixNode::CompoundSugMax(v) => {
                self.compound_config.sug_max = v;
                Ok(())
            },
            _ => Ok(()),
        }
    }

    fn apply_maxngramsugs(&mut self, node: AffixNode) -> (r: Result<(), Error>)
        requires
            node is NGramSugMax,
        ensures
            final(self).flag_type == old(self).flag_type,
            match apply_node(old(self)@, node@, old(self).flag_type) {
                Ok(c) => r is Ok && final(self)@ == c,
                Err(text) => r matches Err(Error::Parse(pe)) && pe.context() == text
                    && pe.spec_span() is None && flag_error(old(self).flag_type, text, pe.kind()),
            },
    {
        match node {
            AffixNode::NGramSugMax(v) => {
                self.ngram_sug_max = v;
                Ok(())
            },
            _ => Ok(()),
        }
    }

    fn apply_maxdiff(&mut self, node: AffixNode) -> (r: Result<(), Error>)
        requires
            node is NGramDiffMax,
        ensures
            final(self).flag_type == old(self).flag_type,
            match apply_node(old(self)@, node@, old(self).flag_type) {
                Ok(c) => r is Ok && final(self)@ == c,
                Err(text) => r matches Err(Error::Parse(pe)) && pe.context() == text
                    && pe.spec_span() is None && flag_error(old(self).flag_type, text, pe.kind()),
            },
    {
        match node {
            AffixNode::NGramDiffMax(v) => {
                self.ngram_diff_max = v;
                Ok(())
            },
            _ => Ok(()),
        }
    }

    fn apply_onlymaxdiff(&mut self, node: AffixNode) -> (r: Result<(), Error>)
        requires
            node is NGramLimitToDiffMax,
        ensures
            final(self).flag_type == old(self).flag_type,
            match apply_node(old(self)@, node@, old(self).flag_type) {
                Ok(c) => r is Ok && final(self)@ == c,
                Err(text) => r matches Err(Error::Parse(pe)) && pe.context() == text
                    && pe.spec_span() is None && flag_error(old(self).flag_type, text, pe.kind()),
            },
    {
        match node {
            AffixNode::NGramLimitToDiffMax => {
                self.ngram_limit_to_diff_max = true;
                Ok(())
            },
            _ => Ok(()),
        }
    }

    fn apply_nosplitsugs(&mut self, node: AffixNode) -> (r: Result<(), Error>)
        requires
            node is NoSplitSuggestions,
        ensures
            final(self).flag_type == old(self).flag_type,
            match apply_node(old(self)@, node@, old(self).flag_type) {
                Ok(c) => r is Ok && final(self)@ == c,
                Err(text) => r matches Err(Error::Parse(pe)) && pe.context() == text
                    && pe.spec_span() is None && flag_error(old(self).flag_type, text, pe.kind()),
            },
    {
        match node {
            AffixNode::NoSplitSuggestions => {
                self.no_split_suggestions = true;
                Ok(())
            },
            _ => Ok(()),
        }
    }

    fn apply_sugswithdots(&mut self, node: AffixNode) -> (r: Result<(), Error>)
        requires
            node is KeepTermDots,
        ensures
            final(self).flag_type == old(self).flag_type,
            match apply_node(old(self)@, node@, old(self).flag_type) {
                Ok(c) => r is Ok && final(self)@ == c,
                Err(text) => r matches Err(Error::Parse(pe)) && pe.context() == text
                    && pe.spec_span() is None && flag_error(old(self).flag_type, text, pe.kind()),
            },
    {
        match node {
            AffixNode::KeepTermDots => {
                self.keep_term_dots = true;
                Ok(())
            },
            _ => Ok(()),
        }
    }

    fn apply_rep(&mut self, node: AffixNode) -> (r: Result<(), Error>)
        requires
            node is Replacement,
        ensures
            final(self).flag_type == old(self).flag_type,
            match apply_node(old(self)@, node@, old(self).flag_type) {
                Ok(c) => r is Ok && final(self)@ == c,
                Err(text) => r matches Err(Error::Parse(pe)) && pe.context() == text
                    && pe.spec_span() is None && flag_error(old(self).flag_type, text, pe.kind()),
            },
    {
        match node {
            AffixNode::Replacement(v) => {
                self.replacements = v;
                Ok(())
            },
            _ => Ok(()),
        }
    }

    fn apply_map(&mut self, node: AffixNode) -> (r: Result<(), Error>)
        requires
            node is Mapping,
        ensures
            final(self).flag_type == old(self).flag_type,
            match apply_node(old(self)@, node@, old(self).flag_type) {
                Ok(c) => r is Ok && final(self)@ == c,
                Err(text) => r matches Err(Error::Parse(pe)) && pe.context() == text
                    && pe.spec_span() is None && flag_error(old(self).flag_type, text, pe.kind()),
            },
    {
        match node {
            AffixNode::Mapping(v) => {
                self.maps = v;
                Ok(())
            },
            _ => Ok(()),
        }
    }

    fn apply_phone(&mut self, node: AffixNode) -> (r: Result<(), Error>)
        requires
            node is Phonetic,
        ensures
            final(self).flag_type == old(self).flag_type,
            match apply_node(old(self)@, node@, old(self).flag_type) {
                Ok(c) => r is Ok && final(self)@ == c,
                Err(text) => r matches Err(Error::Parse(pe)) && pe.context() == text
                    && pe.spec_span() is None && flag_error(old(self).flag_type, text, pe.kind()),
            },
    {
        match node {
            AffixNode::Phonetic(v) => {
                self.phonetics = v;
                Ok(())
            },
            _ => Ok(()),
        }
    }

    fn apply_warn(&mut self, node: AffixNode) -> (r: Result<(), Error>)
        requires
            node is WarnRareFlag,
        ensures
            final(self).flag_type == old(self).flag_type,
            match apply_node(old(self)@, node@, old(self).flag_type) {
                Ok(c) => r is Ok && final(self)@ == c,
                Err(text) => r matches Err(Error::Parse(pe)) && pe.context() == text
                    && pe.spec_span() is None && flag_error(old(self).flag_type, text, pe.kind()),
            },
    {
        match node {
            AffixNode::WarnRareFlag(v) => match self.convert_flag(v.as_str()) {
                Ok(f) => {
                    self.warn_rare_flag = Some(f);
                    Ok(())
                },
                Err(e) => Err(Error::Parse(e)),
            },
            _ => Ok(()),
        }
    }

    fn apply_forbidwarn(&mut self, node: AffixNode) -> (r: Result<(), Error>)
        requires
            node is ForbidWarnWords,
        ensures
            final(self).flag_type == old(self).flag_type,
            match apply_node(old(self)@, node@, old(self).flag_type) {
                Ok(c) => r is Ok && final(self)@ == c,
                Err(text) => r matches Err(Error::Parse(pe)) && pe.context() == text
                    && pe.spec_span() is None && flag_error(old(self).flag_type, text, pe.kind()),
            },
    {
        match node {
            AffixNode::ForbidWarnWords => {
                self.forbid_warn_words = true;
                Ok(())
            },
            _ => Ok(()),
        }
    }

    fn apply_break(&mut self, node: AffixNode) -> (r: Result<(), Error>)
        requires
            node is BreakSeparator,
        ensures
            final(self).flag_type == old(self).flag_type,
            match apply_node(old(self)@, node@, old(self).flag_type) {
                Ok(c) => r is Ok && final(self)@ == c,
                Err(text) => r matches Err(Error::Parse(pe)) && pe.context() == text
                    && pe.spec_span() is None && flag_error(old(self).flag_type, text, pe.kind()),
            },
    {
        match node {
            AffixNode::BreakSeparator(v) => {
                self.compound_config.break_separators = v;
                Ok(())
            },
            _ => Ok(()),
        }
    }

    fn apply_compoundrule(&mut self, node: AffixNode) -> (r: Result<(), Error>)
        requires
            node is CompoundRule,
        ensures
            final(self).flag_type == old(self).flag_type,
            match apply_node(old(self)@, node@, old(self).flag_type) {
                Ok(c) => r is Ok && final(self)@ == c,
                Err(text) => r matches Err(Error::Parse(pe)) && pe.context() == text
                    && pe.spec_span() is None && flag_error(old(self).flag_type, text, pe.kind()),
            },
    {
        match node {
            AffixNode::CompoundRule(v) => {
                self.compound_config.rules = v;
                Ok(())
            },
            _ => Ok(()),
        }
    }

    fn apply_compoundmin(&mut self, node: AffixNode) -> (r: Result<(), Error>)
        requires
            node is CompoundMinLen,
        ensures
            final(self).flag_type == old(self).flag_type,
            match apply_node(old(self)@, node@, old(self).flag_type) {
                Ok(c) => r is Ok && final(self)@ == c,
                Err(text) => r matches Err(Error::Parse(pe)) && pe.context() == text
                    && pe.spec_span() is None && flag_error(old(self).flag_type, text, pe.kind()),
            },
    {
        match node {
            AffixNode::CompoundMinLen(v) => {
                self.compound_config.min_length = v;
                Ok(())
            },
            _ => Ok(()),
        }
    }

    fn apply_compoundflag(&mut self, node: AffixNode) -> (r: Result<(), Error>)
        requires
            node is CompoundFlag,
        ensures
            final(self).flag_type == old(self).flag_type,
            match apply_node(old(self)@, node@, old(self).flag_type) {
                Ok(c) => r is Ok && final(self)@ == c,
                Err(text) => r matches Err(Error::Parse(pe)) && pe.context() == text
                    && pe.spec_span() is None && flag_error(old(self).flag_type, text, pe.kind()),
            },
    {
        match node {
            AffixNode::CompoundFlag(v) => match self.convert_flag(v.as_str()) {
                Ok(f) => {
                    self.compound_config.flag = Some(f);
                    Ok(())
                },
                Err(e) => Err(Error::Parse(e)),
            },
            _ => Ok(()),
        }
    }

    fn apply_compoundbegin(&mut self, node: AffixNode) -> (r: Result<(), Error>)
        requires
            node is CompoundBeginFlag,
        ensures
            final(self).flag_type == old(self).flag_type,
            match apply_node(old(self)@, node@, old(self).flag_type) {
                Ok(c) => r is Ok && final(self)@ == c,
                Err(text) => r matches Err(Error::Parse(pe)) && pe.context() == text
                    && pe.spec_span() is None && flag_error(old(self).flag_type, text, pe.kind()),
            },
    {
        match node {
            AffixNode::CompoundBeginFlag(v) => match self.convert_flag(v.as_str()) {
                Ok(f) => {
                    self.compound_config.begin_flag = Some(f);
                    Ok(())
                },
                Err(e) => Err(Error::Parse(e)),
            },
            _ => Ok(()),
        }
    }

    fn apply_compoundlast(&mut self, node: AffixNode) -> (r: Result<(), Error>)
        requires
            node is CompoundEndFlag,
        ensures
            final(self).flag_type == old(self).flag_type,
            match apply_node(old(self)@, node@, old(self).flag_type) {
                Ok(c) => r is Ok && final(self)@ == c,
                Err(text) => r matches Err(Error::Parse(pe)) && pe.context() == text
                    && pe.spec_span() is None && flag_error(old(self).flag_type, text, pe.kind()),
            },
    {
        match node {
            AffixNode::CompoundEndFlag(v) => match self.convert_flag(v.as_str()) {
                Ok(f) => {
                    self.compound_config.end_flag = Some(f);
                    Ok(())
                },
                Err(e) => Err(Error::Parse(e)),
            },
            _ => Ok(()),
        }
    }

    fn apply_compoundmiddle(&mut self, node: AffixNode) -> (r: Result<(), Error>)
        requires
            node is CompoundMiddleFlag,
        ensures
            final(self).flag_type == old(self).flag_type,
            match apply_node(old(self)@, node@, old(self).flag_type) {
                Ok(c) => r is Ok && final(self)@ == c,
                Err(text) => r matches Err(Error::Parse(pe)) && pe.context() == text
                    && pe.spec_span() is None && flag_error(old(self).flag_type, text, pe.kind()),
            },
    {
        match node {
            AffixNode::CompoundMiddleFlag(v) => match self.convert_flag(v.as_str()) {
                Ok(f) => {
                    self.compound_config.middle_flag = Some(f);
                    Ok(())
                },
                Err(e) => Err(Error::Parse(e)),
            },
            _ => Ok(()),
        }
    }

    fn apply_onlyincompound(&mut self, node: AffixNode) -> (r: Result<(), Error>)
        requires
            node is CompoundOnlyFlag,
        ensures
            final(self).flag_type == old(self).flag_type,
            match apply_node(old(self)@, node@, old(self).flag_type) {
                Ok(c) => r is Ok && final(self)@ == c,
                Err(text) => r matches Err(Error::Parse(pe)) && pe.context() == text
                    && pe.spec_span() is None && flag_error(old(self).flag_type, text, pe.kind()),
            },
    {
        match node {
            AffixNode::CompoundOnlyFlag(v) => match self.convert_flag(v.as_str()) {
                Ok(f) => {
                    self.compound_config.only_flag = Some(f);
                    Ok(())
                },
                Err(e) => Err(Error::Parse(e)),
            },
            _ => Ok(()),
        }
    }

    fn apply_compoundpermitflag(&mut self, node: AffixNode) -> (r: Result<(), Error>)
        requires
            node is CompoundPermitFlag,
        ensures
            final(self).flag_type == old(self).flag_type,
            match apply_node(old(self)@, node@, old(self).flag_type) {
                Ok(c) => r is Ok && final(self)@ == c,
                Err(text) => r matches Err(Error::Parse(pe)) && pe.context() == text
                    && pe.spec_span() is None && flag_error(old(self).flag_type, text, pe.kind()),
            },
    {
        match node {
            AffixNode::CompoundPermitFlag(v) => match self.convert_flag(v.as_str()) {
                Ok(f) => {
                    self.compound_config.permit_flag = Some(f);
                    Ok(())
                },
                Err(e) => Err(Error::Parse(e)),
            },
            _ => Ok(()),
        }
    }

    fn apply_compoundforbidflag(&mut self, node: AffixNode) -> (r: Result<(), Error>)
        requires
            node is CompoundForbidFlag,
        ensures
            final(self).flag_type == old(self).flag_type,
            match apply_node(old(self)@, node@, old(self).flag_type) {
                Ok(c) => r is Ok && final(self)@ == c,
                Err(text) => r matches Err(Error::Parse(pe)) && pe.context() == text
                    && pe.spec_span() is None && flag_error(old(self).flag_type, text, pe.kind()),
            },
    {
        match node {
            AffixNode::CompoundForbidFlag(v) => match self.convert_flag(v.as_str()) {
                Ok(f) => {
                    self.compound_config.forbid_flag = Some(f);
                    Ok(())
                },
                Err(e) => Err(Error::Parse(e)),
            },
            _ => Ok(()),
        }
    }

    fn apply_compoundmoresuffixes(&mut self, node: AffixNode) -> (r: Result<(), Error>)
        requires
            node is CompoundMoreSuffixes,
        ensures
            final(self).flag_type == old(self).flag_type,
            match apply_node(old(self)@, node@, old(self).flag_type) {
                Ok(c) => r is Ok && final(self)@ == c,
                Err(text) => r matches Err(Error::Parse(pe)) && pe.context() == text
                    && pe.spec_span() is None && flag_error(old(self).flag_type, text, pe.kind()),
            },
    {
        match node {
            AffixNode::CompoundMoreSuffixes => {
                self.compound_config.more_suffixes = true;
                Ok(())
            },
            _ => Ok(()),
        }
    }

    fn apply_compoundroot(&mut self, node: AffixNode) -> (r: Result<(), Error>)
        requires
            node is CompoundRootFlag,
        ensures
            final(self).flag_type == old(self).flag_type,
            match apply_node(old(self)@, node@, old(self).flag_type) {
                Ok(c) => r is Ok && final(self)@ == c,
                Err(text) => r matches Err(Error::Parse(pe)) && pe.context() == text
                    && pe.spec_span() is None && flag_error(old(self).flag_type, text, pe.kind()),
            },
    {
        match node {
            AffixNode::CompoundRootFlag(v) => match self.convert_flag(v.as_str()) {
                Ok(f) => {
                    self.compound_config.root_flag = Some(f);
                    Ok(())
                },
                Err(e) => Err(Error::Parse(e)),
            },
            _ => Ok(()),
        }
    }

    fn apply_compoundwordmax(&mut self, node: AffixNode) -> (r: Result<(), Error>)
        requires
            node is CompoundWordMax,
        ensures
            final(self).flag_type == old(self).flag_type,
            match apply_node(old(self)@, node@, old(self).flag_type) {
                Ok(c) => r is Ok && final(self)@ == c,
                Err(text) => r matches Err(Error::Parse(pe)) && pe.context() == text
                    && pe.spec_span() is None && flag_error(old(self).flag_type, text, pe.kind()),
            },
    {
        match node {
            AffixNode::CompoundWordMax(v) => {
                self.compound_config.word_max = v;
                Ok(())
            },
            _ => Ok(()),
        }
    }

    fn apply_checkcompounddup(&mut self, node: AffixNode) -> (r: Result<(), Error>)
        requires
            node is CompoundForbidDup,
        ensures
            final(self).flag_type == old(self).flag_type,
            match apply_node(old(self)@, node@, old(self).flag_type) {
                Ok(c) => r is Ok && final(self)@ == c,
                Err(text) => r matches Err(Error::Parse(pe)) && pe.context() == text
                    && pe.spec_span() is None && flag_error(old(self).flag_type, text, pe.kind()),
            },
    {
        match node {
            AffixNode::CompoundForbidDup => {
                self.compound_config.forbid_dup = true;
                Ok(())
            },
            _ => Ok(()),
        }
    }

    fn apply_checkcompoundrep(&mut self, node: AffixNode) -> (r: Result<(), Error>)
        requires
            node is CompoundForbidRepeat,
        ensures
            final(self).flag_type == old(self).flag_type,
            match apply_node(old(self)@, node@, old(self).flag_type) {
                Ok(c) => r is Ok && final(self)@ == c,
                Err(text) => r matches Err(Error::Parse(pe)) && pe.context() == text
                    && pe.spec_span() is None && flag_error(old(self).flag_type, text, pe.kind()),
            },
    {
        match node {
            AffixNode::CompoundForbidRepeat => {
                self.compound_config.forbid_repeat = true;
                Ok(())
            },
            _ => Ok(()),
        }
    }

    fn apply_checkcompoundcase(&mut self, node: AffixNode) -> (r: Result<(), Error>)
        requires
            node is CompoundCheckCase,
        ensures
            final(self).flag_type == old(self).flag_type,
            match apply_node(old(self)@, node@, old(self).flag_type) {
                Ok(c) => r is Ok && final(self)@ == c,
                Err(text) => r matches Err(Error::Parse(pe)) && pe.context() == text
                    && pe.spec_span() is None && flag_error(old(self).flag_type, text, pe.kind()),
            },
    {
        match node {
            AffixNode::CompoundCheckCase => {
                self.compound_config.check_case = true;
                Ok(())
            },
            _ => Ok(()),
        }
    }

    fn apply_checkcompoundtriple(&mut self, node: AffixNode) -> (r: Result<(), Error>)
        requires
            node is CompoundCheckTriple,
        ensures
            final(self).flag_type == old(self).flag_type,
            match apply_node(old(self)@, node@, old(self).flag_type) {
                Ok(c) => r is Ok && final(self)@ == c,
                Err(text) => r matches Err(Error::Parse(pe)) && pe.context() == text
                    && pe.spec_span() is None && flag_error(old(self).flag_type, text, pe.kind()),
            },
    {
        match node {
            AffixNode::CompoundCheckTriple => {
                self.compound_config.check_triple = true;
                Ok(())
            },
            _ => Ok(()),
        }
    }

    fn apply_simplifiedtriple(&mut self, node: AffixNode) -> (r: Result<(), Error>)
        requires
            node is CompoundSimplifyTriple,
        ensures
            final(self).flag_type == old(self).flag_type,
            match apply_node(old(self)@, node@, old(self).flag_type) {
                Ok(c) => r is Ok && final(self)@ == c,
                Err(text) => r matches Err(Error::Parse(pe)) && pe.context() == text
                    && pe.spec_span() is None && flag_error(old(self).flag_type, text, pe.kind()),
            },
    {
        match node {
            AffixNode::CompoundSimplifyTriple => {
                self.compound_config.simplify_triple = true;
                Ok(())
            },
            _ => Ok(()),
        }
    }

    fn apply_checkcompoundpattern(&mut self, node: AffixNode) -> (r: Result<(), Error>)
        requires
            node is CompoundForbidPats,
        ensures
            final(self).flag_type == old(self).flag_type,
            match apply_node(old(self)@, node@, old(self).flag_type) {
                Ok(c) => r is Ok && final(self)@ == c,
                Err(text) => r matches Err(Error::Parse(pe)) && pe.context() == text
                    && pe.spec_span() is None && flag_error(old(self).flag_type, text, pe.kind()),
            },
    {
        match node {
            AffixNode::CompoundForbidPats(v) => {
                self.compound_config.forbid_pats = v;
                Ok(())
            },
            _ => Ok(()),
        }
    }

    fn apply_forceucase(&mut self, node: AffixNode) -> (r: Result<(), Error>)
        requires
            node is CompoundForceUpFlag,
        ensures
            final(self).flag_type == old(self).flag_type,
            match apply_node(old(self)@, node@, old(self).flag_type) {
                Ok(c) => r is Ok && final(self)@ == c,
                Err(text) => r matches Err(Error::Parse(pe)) && pe.context() == text
                    && pe.spec_span() is None && flag_error(old(self).flag_type, text, pe.kind()),
            },
    {
        match node {
            AffixNode::CompoundForceUpFlag(v) => match self.convert_flag(v.as_str()) {
                Ok(f) => {
                    self.compound_config.force_upper_flag = Some(f);
                    Ok(())
                },
                Err(e) => Err(Error::Parse(e)),
            },
            _ => Ok(()),
        }
    }

    fn apply_compoundsyllable(&mut self, node: AffixNode) -> (r: Result<(), Error>)
        requires
            node is CompoundSyllable,
        ensures
            final(self).flag_type == old(self).flag_type,
            match apply_node(old(self)@, node@, old(self).flag_type) {
                Ok(c) => r is Ok && final(self)@ == c,
                Err(text) => r matches Err(Error::Parse(pe)) && pe.context() == text
                    && pe.spec_span() is None && flag_error(old(self).flag_type, text, pe.kind()),
            },
    {
        match node {
            AffixNode::CompoundSyllable(v) => {
                self.compound_config.syllable = v;
                Ok(())
            },
            _ => Ok(()),
        }
    }

    fn apply_syllablenum(&mut self, node: AffixNode) -> (r: Result<(), Error>)
        requires
            node is SyllableNum,
        ensures
            final(self).flag_type == old(self).flag_type,
            match apply_node(old(self)@, node@, old(self).flag_type) {
                Ok(c) => r is Ok && final(self)@ == c,
                Err(text) => r matches Err(Error::Parse(pe)) && pe.context() == text
                    && pe.spec_span() is None && flag_error(old(self).flag_type, text, pe.kind()),
            },
    {
        match node {
            AffixNode::SyllableNum(v) => {
                self.compound_config.syllable_num = v;
                Ok(())
            },
            _ => Ok(()),
        }
    }

    fn apply_pfx(&mut self, node: AffixNode) -> (r: Result<(), Error>)
        requires
            node is Prefix,
        ensures
            final(self).flag_type == old(self).flag_type,
            match apply_node(old(self)@, node@, old(self).flag_type) {
                Ok(c) => r is Ok && final(self)@ == c,
                Err(text) => r matches Err(Error::Parse(pe)) && pe.context() == text
                    && pe.spec_span() is None && flag_error(old(self).flag_type, text, pe.kind()),
            },
    {
        match node {
            AffixNode::Prefix(v) => {
                let ghost before = self.afx_rule_groups@;
                self.afx_rule_groups.push(v);
                proof {
                    assert(groups_view(self.afx_rule_groups@) =~= groups_view(before).push(group_view(v)));
                }
                Ok(())
            },
            _ => Ok(()),
        }
    }

    fn apply_sfx(&mut self, node: AffixNode) -> (r: Result<(), Error>)
        requires
            node is Suffix,
        ensures
            final(self).flag_type == old(self).flag_type,
            match apply_node(old(self)@, node@, old(self).flag_type) {
                Ok(c) => r is Ok && final(self)@ == c,
                Err(text) => r matches Err(Error::Parse(pe)) && pe.context() == text
                    && pe.spec_span() is None && flag_error(old(self).flag_type, text, pe.kind()),
            },
    {
        match node {
            AffixNode::Suffix(v) => {
                let ghost before = self.afx_rule_groups@;
                self.afx_rule_groups.push(v);
                proof {
                    assert(groups_view(self.afx_rule_groups@) =~= groups_view(before).push(group_view(v)));
                }
                Ok(())
            },
            _ => Ok(()),
        }
    }

    fn apply_circumfix(&mut self, node: AffixNode) -> (r: Result<(), Error>)
        requires
            node is AfxCircumfixFlag,
        ensures
            final(self).flag_type == old(self).flag_type,
            match apply_node(old(self)@, node@, old(self).flag_type) {
                Ok(c) => r is Ok && final(self)@ == c,
                Err(text) => r matches Err(Error::Parse(pe)) && pe.context() == text
                    && pe.spec_span() is None && flag_error(old(self).flag_type, text, pe.kind()),
            },
    {
        match node {
            AffixNode::AfxCircumfixFlag(v) => match self.convert_flag(v.as_str()) {
                Ok(f) => {
                    self.afx_circumflex_flag = Some(f);
                    Ok(())
                },
                Err(e) => Err(Error::Parse(e)),
            },
            _ => Ok(()),
        }
    }

    fn apply_forbiddenword(&mut self, node: AffixNode) -> (r: Result<(), Error>)
        requires
            node is ForbiddenWordFlag,
        ensures
            final(self).flag_type == old(self).flag_type,
            match apply_node(old(self)@, node@, old(self).flag_type) {
                Ok(c) => r is Ok && final(self)@ == c,
                Err(text) => r matches Err(Error::Parse(pe)) && pe.context() == text
                    && pe.spec_span() is None && flag_error(old(self).flag_type, text, pe.kind()),
            },
    {
        match node {
            AffixNode::ForbiddenWordFlag(v) => match self.convert_flag(v.as_str()) {
                Ok(f) => {
                    self.forbidden_word_flag = Some(f);
                    Ok(())
                },
                Err(e) => Err(Error::Parse(e)),
            },
            _ => Ok(()),
        }
    }

    fn apply_fullstrip(&mut self, node: AffixNode) -> (r: Result<(), Error>)
        requires
            node is AfxFullStrip,
        ensures
            final(self).flag_type == old(self).flag_type,
            match apply_node(old(self)@, node@, old(self).flag_type) {
                Ok(c) => r is Ok && final(self)@ == c,
                Err(text) => r matches Err(Error::Parse(pe)) && pe.context() == text
                    && pe.spec_span() is None && flag_error(old(self).flag_type, text, pe.kind()),
            },
    {
        match node {
            AffixNode::AfxFullStrip => {
                self.afx_full_strip = true;
                Ok(())
            },
            _ => Ok(()),
        }
    }

    fn apply_keepcase(&mut self, node: AffixNode) -> (r: Result<(), Error>)
        requires
            node is AfxKeepCaseFlag,
        ensures
            final(self).flag_type == old(self).flag_type,
            match apply_node(old(self)@, node@, old(self).flag_type) {
                Ok(c) => r is Ok && final(self)@ == c,
                Err(text) => r matches Err(Error::Parse(pe)) && pe.context() == text
                    && pe.spec_span() is None && flag_error(old(self).flag_type, text, pe.kind()),
            },
    {
        match node {
            AffixNode::AfxKeepCaseFlag(v) => match self.convert_flag(v.as_str()) {
                Ok(f) => {
                    self.afx_keep_case_flag = Some(f);
                    Ok(())
                },
                Err(e) => Err(Error::Parse(e)),
            },
            _ => Ok(()),
        }
    }

    fn apply_iconv(&mut self, node: AffixNode) -> (r: Result<(), Error>)
        requires
            node is AfxInputConversion,
        ensures
            final(self).flag_type == old(self).flag_type,
            match apply_node(old(self)@, node@, old(self).flag_type) {
                Ok(c) => r is Ok && final(self)@ == c,
                Err(text) => r matches Err(Error::Parse(pe)) && pe.context() == text
                    && pe.spec_span() is None && flag_error(old(self).flag_type, text, pe.kind()),
            },
    {
        match node {
            AffixNode::AfxInputConversion(v) => {
                self.input_conversions = v;
                Ok(())
            },
            _ => Ok(()),
        }
    }

    fn apply_oconv(&mut self, node: AffixNode) -> (r: Result<(), Error>)
        requires
            node is AfxOutputConversion,
        ensures
            final(self).flag_type == old(self).flag_type,
            match apply_node(old(self)@, node@, old(self).flag_type) {
                Ok(c) => r is Ok && final(self)@ == c,
                Err(text) => r matches Err(Error::Parse(pe)) && pe.context() == text
                    && pe.spec_span() is None && flag_error(old(self).flag_type, text, pe.kind()),
            },
    {
        match node {
            AffixNode::AfxOutputConversion(v) => {
                self.output_conversions = v;
                Ok(())
            },
            _ => Ok(()),
        }
    }

    fn apply_needaffix(&mut self, node: AffixNode) -> (r: Result<(), Error>)
        requires
            node is AfxNeededFlag,
        ensures
            final(self).flag_type == old(self).flag_type,
            match apply_node(old(self)@, node@, old(self).flag_type) {
                Ok(c) => r is Ok && final(self)@ == c,
                Err(text) => r matches Err(Error::Parse(pe)) && pe.context() == text
                    && pe.spec_span() is None && flag_error(old(self).flag_type, text, pe.kind()),
            },
    {
        match node {
            AffixNode::AfxNeededFlag(v) => match self.convert_flag(v.as_str()) {
                Ok(f) => {
                    self.afx_needed_flag = Some(f);
                    Ok(())
                },
                Err(e) => Err(Error::Parse(e)),
            },
            _ => Ok(()),
        }
    }

    fn apply_substandard(&mut self, node: AffixNode) -> (r: Result<(), Error>)
        requires
            node is AfxSubstandardFlag,
        ensures
            final(self).flag_type == old(self).flag_type,
            match apply_node(old(self)@, node@, old(self).flag_type) {
                Ok(c) => r is Ok && final(self)@ == c,
                Err(text) => r matches Err(Error::Parse(pe)) && pe.context() == text
                    && pe.spec_span() is None && flag_error(old(self).flag_type, text, pe.kind()),
            },
    {
        match node {
            AffixNode::AfxSubstandardFlag(v) => match self.convert_flag(v.as_str()) {
                Ok(f) => {
                    self.afx_substandard_flag = Some(f);
                    Ok(())
                },
                Err(e) => Err(Error::Parse(e)),
            },
            _ => Ok(()),
        }
    }

    fn apply_wordchars(&mut self, node: AffixNode) -> (r: Result<(), Error>)
        requires
            node is AfxWordChars,
        ensures
            final(self).flag_type == old(self).flag_type,
            match apply_node(old(self)@, node@, old(self).flag_type) {
                Ok(c) => r is Ok && final(self)@ == c,
                Err(text) => r matches Err(Error::Parse(pe)) && pe.context() == text
                    && pe.spec_span() is None && flag_error(old(self).flag_type, text, pe.kind()),
            },
    {
        match node {
            AffixNode::AfxWordChars(v) => {
                self.afx_word_chars = v;
                Ok(())
            },
            _ => Ok(()),
        }
    }

    fn apply_checksharps(&mut self, node: AffixNode) -> (r: Result<(), Error>)
        requires
            node is AfxCheckSharps,
        ensures
            final(self).flag_type == old(self).flag_type,
            match apply_node(old(self)@, node@, old(self).flag_type) {
                Ok(c) => r is Ok && final(self)@ == c,
                Err(text) => r matches Err(Error::Parse(pe)) && pe.context() == text
                    && pe.spec_span() is None && flag_error(old(self).flag_type, text, pe.kind()),
            },
    {
        match node {
            AffixNode::AfxCheckSharps => {
                self.afx_check_sharps = true;
                Ok(())
            },
            _ => Ok(()),
        }
    }

    fn apply_name(&mut self, node: AffixNode) -> (r: Result<(), Error>)
        requires
            node is Name,
        ensures
            final(self).flag_type == old(self).flag_type,
            match apply_node(old(self)@, node@, old(self).flag_type) {
                Ok(c) => r is Ok && final(self)@ == c,
                Err(text) => r matches Err(Error::Parse(pe)) && pe.context() == text
                    && pe.spec_span() is None && flag_error(old(self).flag_type, text, pe.kind()),
            },
    {
        match node {
            AffixNode::Name(v) => {
                self.name = v;
                Ok(())
            },
            _ => Ok(()),
        }
    }

    fn apply_home(&mut self, node: AffixNode) -> (r: Result<(), Error>)
        requires
            node is HomePage,
        ensures
            final(self).flag_type == old(self).flag_type,
            match apply_node(old(self)@, node@, old(self).flag_type) {
                Ok(c) => r is Ok && final(self)@ == c,
                Err(text) => r matches Err(Error::Parse(pe)) && pe.context() == text
                    && pe.spec_span() is None && flag_error(old(self).flag_type, text, pe.kind()),
            },
    {
        match node {
            AffixNode::HomePage(v) => {
                self.home_page = v;
                Ok(())
            },
            _ => Ok(()),
        }
    }

    fn apply_version(&mut self, node: AffixNode) -> (r: Result<(), Error>)
        requires
            node is Version,
        ensures
            final(self).flag_type == old(self).flag_type,
            match apply_node(old(self)@, node@, old(self).flag_type) {
                Ok(c) => r is Ok && final(self)@ == c,
                Err(text) => r matches Err(Error::Parse(pe)) && pe.context() == text
                    && pe.spec_span() is None && flag_error(old(self).flag_type, text, pe.kind()),
            },
    {
        match node {
            AffixNode::Version(v) => {
                self.version = v;
                Ok(())
            },
            _ => Ok(()),
        }
    }

}

/// The default compounding settings.
pub open spec fn default_compound() -> CompoundView {
    CompoundView {
        break_separators: Seq::empty(),
        sug_max: 3,
        rules: Seq::empty(),
        min_length: 3,
        flag: None,
        begin_flag: None,
        end_flag: None,
        middle_flag: None,
        only_flag: None,
        permit_flag: None,
        forbid_flag: None,
        more_suffixes: false,
        root_flag: None,
        word_max: 0,
        forbid_dup: false,
        forbid_repeat: false,
        check_case: false,
        check_triple: false,
        simplify_triple: false,
        forbid_pats: Seq::empty(),
        force_upper_flag: None,
        syllable: (0, Seq::empty()),
        syllable_num: Seq::empty(),
    }
}

/// The settings of an affix file that sets nothing.
pub open spec fn default_cfg() -> CfgView {
    CfgView {
        encoding: Encoding::Utf8,
        flag_type: FlagType::Utf8,
        complex_prefixes: false,
        lang: Seq::empty(),
        ignore_chars: Seq::empty(),
        affix_alias: Seq::empty(),
        morph_alias: Seq::empty(),
        neighbor_keys: seq!["qwertyuiop"@, "asdfghjkl"@, "zxcvbnm"@],
        replacements: Seq::empty(),
        try_characters: "esianrtolcdugmphbyfvkwzESIANRTOLCDUGMPHBYFVKWZ'"@,
        nosuggest_flag: Some(33),
        warn_rare_flag: None,
        no_split_suggestions: false,
        keep_term_dots: false,
        forbid_warn_words: false,
        maps: Seq::empty(),
        phonetics: Seq::empty(),
        ngram_sug_max: 2,
        ngram_diff_max: 5,
        ngram_limit_to_diff_max: false,
        compound: default_compound(),
        afx_rule_groups: Seq::empty(),
        afx_circumflex_flag: None,
        forbidden_word_flag: None,
        afx_full_strip: false,
        afx_keep_case_flag: None,
        input_conversions: Seq::empty(),
        output_conversions: Seq::empty(),
        afx_needed_flag: None,
        afx_substandard_flag: None,
        afx_word_chars: Seq::empty(),
        afx_check_sharps: false,
        name: Seq::empty(),
        home_page: Seq::empty(),
        version: Seq::empty(),
    }
}

/// The settings that the entries `ns` give, or the text of the first flag
/// that is not of the file's flag type.
pub open spec fn cfg_of(ns: Seq<NodeView>) -> Result<CfgView, Seq<char>> {
    let ft = flag_type_in(ns);
    cfg_fold(CfgView { flag_type: ft, ..default_cfg() }, ns, ft)
}

impl Default for CompoundConfig {
    fn default() -> (r: CompoundConfig)
        ensures
            r.view_of() == default_compound(),
    {
        let r = CompoundConfig {
            break_separators: Vec::new(),
            sug_max: 3,
            rules: Vec::new(),
            min_length: 3,
            flag: None,
            begin_flag: None,
            end_flag: None,
            middle_flag: None,
            only_flag: None,
            permit_flag: None,
            forbid_flag: None,
            more_suffixes: false,
            root_flag: None,
            word_max: 0,
            forbid_dup: false,
            forbid_repeat: false,
            check_case: false,
            check_triple: false,
            simplify_triple: false,
            forbid_pats: Vec::new(),
            force_upper_flag: None,
            syllable: CompoundSyllable::default(),
            syllable_num: String::new(),
        };
        proof {
            assert(strings_view(r.break_separators@) =~= Seq::<Seq<char>>::empty());
            assert(strings_view(r.rules@) =~= Seq::<Seq<char>>::empty());
            assert(patterns_view(r.forbid_pats@) =~= Seq::<
                CompoundPatternView,
            >::empty());
        }
        r
    }
}

impl Default for ParsedCfg {
    fn default() -> (r: ParsedCfg)
        ensures
            r@ == default_cfg(),
    {
        let neighbor_keys = vec!["qwertyuiop".to_owned(), "asdfghjkl".to_owned(), "zxcvbnm".to_owned()];
        let r = ParsedCfg {
            encoding: Encoding::Utf8,
            flag_type: FlagType::Utf8,
            complex_prefixes: false,
            lang: String::new(),
            ignore_chars: Vec::new(),
            affix_alias: Vec::new(),
            morph_alias: Vec::new(),
            neighbor_keys,
            replacements: Vec::new(),
            try_characters: "esianrtolcdugmphbyfvkwzESIANRTOLCDUGMPHBYFVKWZ'".to_owned(),
            nosuggest_flag: Some('!' as u32),
            warn_rare_flag: None,
            no_split_suggestions: false,
            keep_term_dots: false,
            forbid_warn_words: false,
            maps: Vec::new(),
            phonetics: Vec::new(),
            ngram_sug_max: 2,
            ngram_diff_max: 5,
            ngram_limit_to_diff_max: false,
            compound_config: CompoundConfig::default(),
            afx_rule_groups: Vec::new(),
            afx_circumflex_flag: None,
            forbidden_word_flag: None,
            afx_full_strip: false,
            afx_keep_case_flag: None,
            input_conversions: Vec::new(),
            output_conversions: Vec::new(),
            afx_needed_flag: None,
            afx_substandard_flag: None,
            afx_word_chars: String::new(),
            afx_check_sharps: false,
            name: String::new(),
            home_page: String::new(),
            version: String::new(),
        };
        proof {
            assert(strings_view(r.neighbor_keys@) =~= seq!["qwertyuiop"@, "asdfghjkl"@, "zxcvbnm"@]);
            assert(strings_view(r.affix_alias@) =~= Seq::<Seq<char>>::empty());
            assert(strings_view(r.morph_alias@) =~= Seq::<Seq<char>>::empty());
            assert(conversions_view(r.replacements@) =~= Seq::<ConversionView>::empty());
            assert(conversions_view(r.input_conversions@) =~= Seq::<ConversionView>::empty());
            assert(conversions_view(r.output_conversions@) =~= Seq::<ConversionView>::empty());
            assert(phonetics_view(r.phonetics@) =~= Seq::<PhoneticView>::empty());
            assert(groups_view(r.afx_rule_groups@) =~= Seq::<GroupView>::empty());
            assert(r@ == default_cfg());
        }
        r
    }
}

impl ParsedCfg {
    /// The flag type.
    pub fn flag_type(&self) -> (r: FlagType)
        ensures
            r == self@.flag_type,
    {
        self.flag_type
    }

    /// Read a flag written in this file's flag type.
    pub fn convert_flag(&self, flag: &str) -> (r: Result<u32, ParseError>)
        ensures
            match flag_of(self@.flag_type, flag@) {
                Some(v) => r == Ok::<u32, ParseError>(v),
                None => r matches Err(pe) && pe.context() == flag@ && pe.spec_span() is None
                    && flag_error(self@.flag_type, flag@, pe.kind()),
            },
    {
        match self.flag_type.str_to_flag(flag) {
            Ok(v) => Ok(v),
            Err(e) => Err(ParseError::new_nospan(e, flag)),
        }
    }

    /// The settings that a parsed affix file gives. The flag type is that of
    /// the first `FLAG` entry; every entry is then applied in order, a later
    /// entry overriding an earlier one of the same key.
    pub fn from_parsed(v: Vec<AffixNode>) -> (r: Result<ParsedCfg, Error>)
        ensures
            match cfg_of(nodes_view(v@)) {
                Ok(c) => r matches Ok(cfg) && cfg@ == c,
                Err(text) => r matches Err(Error::Parse(pe)) && pe.context() == text
                    && pe.spec_span() is None && flag_error(flag_type_in(nodes_view(v@)), text, pe.kind()),
            },
    {
        let ghost ns = nodes_view(v@);
        let mut res = ParsedCfg::default();
        let mut i: usize = 0;
        let mut found = false;
        proof {
            assert(ns.skip(0) =~= ns);
        }
        while i < v.len() && !found
            invariant
                ns == nodes_view(v@),
                ns.len() == v@.len(),
                i <= v@.len(),
                found ==> res@ == (CfgView { flag_type: flag_type_in(ns), ..default_cfg() }),
                !found ==> res@ == default_cfg() && first_flag_type(ns) == first_flag_type(ns.skip(i as int)),
            decreases v@.len() - i + (if found { 0int } else { 1int }),
        {
            proof {
                assert(ns.skip(i as int)[0] == v@[i as int]@);
                assert(ns.skip(i as int).drop_first() =~= ns.skip(i + 1));
            }
            match &v[i] {
                AffixNode::FlagType(f) => {
                    res.flag_type = *f;
                    found = true;
                },
                _ => {
                    i += 1;
                },
            }
        }
        proof {
            if !found {
                assert(ns.skip(i as int).len() == 0);
                assert(res@ == (CfgView { flag_type: flag_type_in(ns), ..default_cfg() }));
            }
        }
        let ghost ft = flag_type_in(ns);
        let ghost start = res@;
        assert(ns.len() == v@.len());
        let mut k: usize = 0;
        let mut rest = v;
        let mut nodes: Vec<AffixNode> = Vec::new();
        while rest.len() > 0
            invariant
                ns.len() == rest@.len() + nodes@.len(),
                forall|j: int| 0 <= j < rest@.len() ==> (#[trigger] rest@[j])@ == ns[j],
                forall|j: int| 0 <= j < nodes@.len() ==> (#[trigger] nodes@[j])@ == ns[ns.len() - 1 - j],
            decreases rest@.len(),
        {
            let x = rest.pop().unwrap();
            nodes.push(x);
        }
        proof {
            assert(ns.skip(0) =~= ns);
        }
        while nodes.len() > 0
            invariant
                ns == nodes_view(v@),
                start == (CfgView { flag_type: ft, ..default_cfg() }),
                ft == flag_type_in(ns),
                res.flag_type == ft,
                ns.len() <= usize::MAX,
                k + nodes@.len() == ns.len(),
                forall|j: int| 0 <= j < nodes@.len() ==> (#[trigger] nodes@[j])@ == ns[ns.len() - 1 - j],
                cfg_fold(start, ns, ft) == cfg_fold(res@, ns.skip(k as int), ft),
            decreases nodes@.len(),
        {
            let node = nodes.pop().unwrap();
            proof {
                assert(node@ == ns[k as int]);
                assert(ns.skip(k as int)[0] == ns[k as int]);
                assert(ns.skip(k as int).drop_first() =~= ns.skip(k + 1));
            }
            match res.apply(node) {
                Ok(()) => {},
                Err(e) => {
                    return Err(e);
                },
            }
            k += 1;
        }
        proof {
            assert(ns.skip(k as int).len() == 0);
        }
        Ok(res)
    }

    /// Read an affix file.
    pub fn load_from_str(s: &str) -> (r: Result<ParsedCfg, Error>)
        requires
            s@.len() + 0x20000 < u32::MAX,
        ensures
            match parse_from(s@, 0, 0) {
                Parsed::Failed(c, l) => r matches Err(Error::Parse(pe))
                    && crate::parser_affix::entries::class_of(pe.kind()) == c
                    && crate::parser_affix::entries::err_line(pe) == l,
                Parsed::Done(ns) => match cfg_of(ns) {
                    Ok(c) => r matches Ok(cfg) && cfg@ == c,
                    Err(text) => r matches Err(Error::Parse(pe)) && pe.context() == text
                        && flag_error(flag_type_in(ns), text, pe.kind()),
                },
            },
    {
        match parse_affix(s) {
            Ok(nodes) => Self::from_parsed(nodes),
            Err(e) => Err(Error::Parse(e)),
        }
    }
}


/* Collecting the flags */

/// The flags that the settings give a special meaning, each with that
/// meaning, in the order in which they are collected.
pub open spec fn special_flags(c: CfgView) -> Seq<(Option<u32>, FlagValue)> {
    seq![
        (c.afx_circumflex_flag, FlagValue::AfxCircumfix),
        (c.afx_keep_case_flag, FlagValue::AfxKeepCase),
        (c.afx_needed_flag, FlagValue::AfxNeeded),
        (c.afx_substandard_flag, FlagValue::AfxSubstandard),
        (c.compound.flag, FlagValue::Compound),
        (c.compound.begin_flag, FlagValue::CompoundBegin),
        (c.compound.end_flag, FlagValue::CompoundEnd),
        (c.compound.forbid_flag, FlagValue::CompoundForbid),
        (c.compound.force_upper_flag, FlagValue::CompoundForceUp),
        (c.compound.middle_flag, FlagValue::CompoundMiddle),
        (c.compound.only_flag, FlagValue::CompoundOnly),
        (c.compound.permit_flag, FlagValue::CompoundPermit),
        (c.compound.root_flag, FlagValue::CompoundRoot),
        (c.forbidden_word_flag, FlagValue::ForbiddenWord),
        (c.nosuggest_flag, FlagValue::NoSuggest),
        (c.warn_rare_flag, FlagValue::WarnRare),
    ]
}

/// Why collecting the flags fails.
pub enum CompileFailure {
    /// A flag is used twice: the flag, what it first stood for, what it
    /// then stands for (`None` for an affix rule), and the text that names
    /// it in the error (the flag written in the file's flag type for a
    /// special flag, the rule group's own flag text for an affix rule)
    Duplicate(u32, FlagEntry, Option<FlagValue>, Seq<char>),
    /// The flag of an affix rule is not written in the file's flag type
    BadRuleFlag(Seq<char>),
}

/// Add the special flags `fs`, of a file with flags of type `ft`, to `m`,
/// in order.
pub open spec fn add_specials(m: Map<u32, FlagEntry>, ft: FlagType, fs: Seq<(Option<u32>, FlagValue)>) -> Result<
    Map<u32, FlagEntry>,
    CompileFailure,
>
    decreases fs.len(),
{
    if fs.len() == 0 {
        Ok(m)
    } else {
        match fs[0].0 {
            None => add_specials(m, ft, fs.drop_first()),
            Some(key) => if m.contains_key(key) {
                Err(CompileFailure::Duplicate(key, m[key], Some(fs[0].1), flag_text(ft, key)))
            } else {
                add_specials(m.insert(key, FlagEntry::Special(fs[0].1)), ft, fs.drop_first())
            },
        }
    }
}

/// Add the rules of the groups `gs`, whose flags are of type `ft`, to `m`,
/// in order.
pub open spec fn add_groups(m: Map<u32, FlagEntry>, ft: FlagType, gs: Seq<GroupView>) -> Result<
    Map<u32, FlagEntry>,
    CompileFailure,
>
    decreases gs.len(),
{
    if gs.len() == 0 {
        Ok(m)
    } else {
        match flag_of(ft, gs[0].flag) {
            None => Err(CompileFailure::BadRuleFlag(gs[0].flag)),
            Some(key) => if m.contains_key(key) {
                Err(CompileFailure::Duplicate(key, m[key], None, gs[0].flag))
            } else {
                add_groups(
                    m.insert(key, FlagEntry::Rule(gs[0].kind, gs[0].can_combine, gs[0].rules)),
                    ft,
                    gs.drop_first(),
                )
            },
        }
    }
}

/// The flags that the settings `c` give a meaning: the special flags, then
/// the flags of the affix rules.
pub open spec fn compiled_flags(c: CfgView) -> Result<Map<u32, FlagEntry>, CompileFailure> {
    match add_specials(Map::empty(), c.flag_type, special_flags(c)) {
        Ok(m) => add_groups(m, c.flag_type, c.afx_rule_groups),
        Err(e) => Err(e),
    }
}

/// The meanings of a map of flags.
pub open spec fn entries_view(m: Map<u32, FlagValue>) -> Map<u32, FlagEntry> {
    m.map_values(|v: FlagValue| flag_entry(v))
}

impl ParsedCfg {
    /// Collect every flag that has a meaning into a map: the special flags,
    /// then the flags of the affix rules. A flag used for two things is an
    /// error.
    pub fn compile_flags(&self) -> (r: Result<BTreeMap<u32, FlagValue>, Error>)
        ensures
            match compiled_flags(self@) {
                Ok(m) => r matches Ok(map) && entries_view(map@) == m,
                Err(CompileFailure::Duplicate(key, t1, t2, text)) => r matches Err(Error::Build(
                    BuildError::DuplicateFlag { flag, t1: x1, t2: x2 },
                )) && flag_entry(x1) == t1 && x2 == t2 && flag@ == text,
                Err(CompileFailure::BadRuleFlag(text)) => r matches Err(Error::Parse(pe))
                    && pe.context() == text && flag_error(self@.flag_type, text, pe.kind()),
            },
    {
        let keysets: Vec<(Option<u32>, FlagValue)> = vec![
            (self.afx_circumflex_flag, FlagValue::AfxCircumfix),
            (self.afx_keep_case_flag, FlagValue::AfxKeepCase),
            (self.afx_needed_flag, FlagValue::AfxNeeded),
            (self.afx_substandard_flag, FlagValue::AfxSubstandard),
            (self.compound_config.flag, FlagValue::Compound),
            (self.compound_config.begin_flag, FlagValue::CompoundBegin),
            (self.compound_config.end_flag, FlagValue::CompoundEnd),
            (self.compound_config.forbid_flag, FlagValue::CompoundForbid),
            (self.compound_config.force_upper_flag, FlagValue::CompoundForceUp),
            (self.compound_config.middle_flag, FlagValue::CompoundMiddle),
            (self.compound_config.only_flag, FlagValue::CompoundOnly),
            (self.compound_config.permit_flag, FlagValue::CompoundPermit),
            (self.compound_config.root_flag, FlagValue::CompoundRoot),
            (self.forbidden_word_flag, FlagValue::ForbiddenWord),
            (self.nosuggest_flag, FlagValue::NoSuggest),
            (self.warn_rare_flag, FlagValue::WarnRare),
        ];
        let ghost fs = special_flags(self@);
        proof {
            assert(keysets@ =~= fs);
            assert(fs.skip(0) =~= fs);
        }
        let mut map: BTreeMap<u32, FlagValue> = BTreeMap::new();
        proof {
            assert(entries_view(map@) =~= Map::<u32, FlagEntry>::empty());
        }
        let mut i: usize = 0;
        while i < keysets.len()
            invariant
                keysets@ == fs,
                fs == special_flags(self@),
                i <= keysets@.len(),
                add_specials(Map::empty(), self@.flag_type, fs) == add_specials(entries_view(map@), self@.flag_type, fs.skip(i as int)),
            decreases keysets@.len() - i,
        {
            proof {
                assert(fs.skip(i as int)[0] == fs[i as int]);
                assert(fs.skip(i as int).drop_first() =~= fs.skip(i + 1));
            }
            let (kopt, value) = (keysets[i].0, keysets[i].1.clone());
            match kopt {
                Some(key) => {
                    match map.get(&key) {
                        Some(duplicate) => {
                            proof {
                                assert(entries_view(map@)[key] == flag_entry(*duplicate));
                            }
                            return Err(Error::Build(BuildError::DuplicateFlag {
                                flag: self.flag_type.flag_to_str(key),
                                t1: duplicate.clone(),
                                t2: Some(value),
                            }));
                        },
                        None => {},
                    }
                    let ghost before = map@;
                    map.insert(key, value);
                    proof {
                        assert(entries_view(map@) =~= entries_view(before).insert(key, FlagEntry::Special(value)));
                    }
                },
                None => {},
            }
            i += 1;
        }
        let ghost gs = self@.afx_rule_groups;
        proof {
            assert(fs.skip(i as int).len() == 0);
            assert(gs.skip(0) =~= gs);
        }
        let mut j: usize = 0;
        while j < self.afx_rule_groups.len()
            invariant
                gs == self@.afx_rule_groups,
                gs.len() == self.afx_rule_groups@.len(),
                j <= gs.len(),
                compiled_flags(self@) == add_groups(entries_view(map@), self@.flag_type, gs.skip(j as int)),
            decreases gs.len() - j,
        {
            let group = &self.afx_rule_groups[j];
            proof {
                assert(gs[j as int] == group_view(*group));
                assert(gs.skip(j as int)[0] == gs[j as int]);
                assert(gs.skip(j as int).drop_first() =~= gs.skip(j + 1));
            }
            let flag = match self.flag_type.str_to_flag(group.flag.as_str()) {
                Ok(f) => f,
                Err(e) => {
                    return Err(Error::Parse(ParseError::new_nospan(e, group.flag.as_str())));
                },
            };
            match map.get(&flag) {
                Some(duplicate) => {
                    proof {
                        assert(entries_view(map@)[flag] == flag_entry(*duplicate));
                    }
                    return Err(Error::Build(BuildError::DuplicateFlag {
                        flag: group.flag.clone(),
                        t1: duplicate.clone(),
                        t2: None,
                    }));
                },
                None => {},
            }
            let rule = AfxRule::from_parsed_group(self, group);
            let ghost before = map@;
            let value = FlagValue::Rule(Arc::new(rule));
            map.insert(flag, value);
            proof {
                assert(entries_view(map@) =~= entries_view(before).insert(
                    flag,
                    FlagEntry::Rule(gs[j as int].kind, gs[j as int].can_combine, gs[j as int].rules),
                ));
            }
            j += 1;
        }
        proof {
            assert(gs.skip(j as int).len() == 0);
        }
        Ok(map)
    }
}

} // verus!

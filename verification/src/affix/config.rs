//! Settings of an affix file, as the entries of the file set them one by
//! one: every entry sets its own setting, a later entry of a key replacing
//! an earlier one, and every prefix or suffix table adds a rule group.
//! Flags are kept as the text that the file writes.

use vstd::prelude::*;

use super::{CompoundPattern, CompoundSyllable, Conversion, Encoding, FlagType, Phonetic};
use super::{vchars, vconvs, venc, vgroup, vmaps, vnum, vpats, vphones, vsyll, vtext, vtexts};
use crate::parser_affix::node::{
    conversions_view, groups_view, opt_view, patterns_view, phonetics_view, strings_view,
    CompoundPatternView, ConversionView, GroupView, NodeValue, NodeView, PhoneticView,
};
use crate::parser_affix::types::RuleGroup;
use crate::parser_affix::{nodes_view, AffixNode};

verus! {

/// The settings of an affix file.
#[derive(Debug, PartialEq, Eq)]
pub struct Config {
    /// Charset that the file declares; only UTF-8 is read
    encoding: Encoding,
    /// The type of flag in the `.dic` file
    flagtype: FlagType,
    /// Twofold prefix skipping for e.g. right-to-left languages
    complex_prefixes: bool,
    /// Language code
    lang: String,
    /// Characters to ignore
    ignore_chars: Vec<char>,
    /// Usable flag vectors
    affix_alias: Vec<String>,
    /// Usable morphological field vectors
    morph_alias: Vec<String>,
    /// Rows of neighbouring keys, such as `qwerty`
    neighbor_keys: Vec<String>,
    /// Replacements to try for suggestions
    replacements: Vec<Conversion>,
    /// Characters to try when suggesting
    try_characters: String,
    /// Flag of words that are never suggested
    nosuggest_flag: Option<String>,
    /// Maximum compound word suggestions
    compound_sug_max: u16,
    /// Flag of rare (often misspelled) words
    warn_rare_flag: Option<String>,
    /// Suggest nothing with spaces
    no_split_suggestions: bool,
    /// Keep a final dot in suggestions
    keep_term_dots: bool,
    /// Never accept words with the warn flag
    forbid_warn_words: bool,
    /// Commonly confused letters
    maps: Vec<(char, char)>,
    /// Phonetic replacements for similar words
    phonetics: Vec<Phonetic>,
    /// Maximum number of n-gram suggestions
    ngram_sug_max: u16,
    /// N-gram similarity limit
    ngram_diff_max: u8,
    /// Keep only the suggestions within the similarity limit
    ngram_limit_to_diff_max: bool,
    /// Separators at which both sides are checked
    break_separators: Vec<String>,
    /// Regex-like rules for compound words
    compound_rules: Vec<String>,
    /// Minimum length of words in a compound
    compound_min_length: u16,
    /// Words with this flag may be in compounds
    compound_flag: Option<String>,
    /// Words with this flag may start a compound
    compound_begin_flag: Option<String>,
    /// Words with this flag may end a compound
    compound_end_flag: Option<String>,
    /// Words with this flag may be inside a compound
    compound_middle_flag: Option<String>,
    /// Words with this flag occur only in compounds
    compound_only_flag: Option<String>,
    /// Affixes with this flag may occur inside compounds
    compound_permit_flag: Option<String>,
    /// Affixes with this flag may not occur in compounds
    compound_forbid_flag: Option<String>,
    /// Allow twofold suffixes in compounds
    compound_more_suffixes: bool,
    /// Flag of compounds listed in the dictionary
    compound_root: Option<String>,
    /// Maximum number of words in a compound
    compound_word_max: u16,
    /// Forbid a word twice in a row in a compound
    compound_forbid_dup: bool,
    /// Forbid compounds that a replacement turns into a word
    compound_forbid_repeat: bool,
    /// Forbid upper case at a compound boundary
    compound_check_case: bool,
    /// Forbid a letter three times at a boundary
    compound_check_triple: bool,
    /// Allow a triple letter written as two
    compound_simplify_triple: bool,
    /// Forbidden patterns at a compound boundary
    compound_forbid_pats: Vec<CompoundPattern>,
    /// Compounds with this flag start with an upper case letter
    compound_force_upper_flag: Option<String>,
    /// Syllable limit of compounds and its vowels
    compound_syllable: CompoundSyllable,
    /// Flags that raise the syllable limit
    syllable_num: String,
    /// Prefix and suffix rule groups, in file order
    affix_rules: Vec<RuleGroup>,
    /// Flag of affixes that come only with a circumfix
    afx_circumflex_flag: Option<String>,
    /// Flag of forbidden words
    forbidden_word_flag: Option<String>,
    /// Affixes may strip a whole word
    afx_full_strip: bool,
    /// Flag of words whose case is kept
    afx_keep_case_flag: String,
    /// Conversions of the input
    input_conversions: Vec<Conversion>,
    /// Conversions of the output
    output_conversions: Vec<Conversion>,
    /// Flag of stems that need an affix
    afx_needed_flag: String,
    /// Flag of substandard affixes
    afx_substandard_flag: String,
    /// Characters that belong to words
    afx_word_chars: String,
    /// Treat `SS` as a sharp s
    afx_check_sharps: bool,
    /// Name of the dictionary
    name: String,
    /// Home page of the dictionary
    home_page: String,
    /// Version of the dictionary
    version: String,
}

/// The value of a [`Config`].
pub struct ConfigView {
    pub encoding: Encoding,
    pub flagtype: FlagType,
    pub complex_prefixes: bool,
    pub lang: Seq<char>,
    pub ignore_chars: Seq<char>,
    pub affix_alias: Seq<Seq<char>>,
    pub morph_alias: Seq<Seq<char>>,
    pub neighbor_keys: Seq<Seq<char>>,
    pub replacements: Seq<ConversionView>,
    pub try_characters: Seq<char>,
    pub nosuggest_flag: Option<Seq<char>>,
    pub compound_sug_max: nat,
    pub warn_rare_flag: Option<Seq<char>>,
    pub no_split_suggestions: bool,
    pub keep_term_dots: bool,
    pub forbid_warn_words: bool,
    pub maps: Seq<(char, char)>,
    pub phonetics: Seq<PhoneticView>,
    pub ngram_sug_max: nat,
    pub ngram_diff_max: nat,
    pub ngram_limit_to_diff_max: bool,
    pub break_separators: Seq<Seq<char>>,
    pub compound_rules: Seq<Seq<char>>,
    pub compound_min_length: nat,
    pub compound_flag: Option<Seq<char>>,
    pub compound_begin_flag: Option<Seq<char>>,
    pub compound_end_flag: Option<Seq<char>>,
    pub compound_middle_flag: Option<Seq<char>>,
    pub compound_only_flag: Option<Seq<char>>,
    pub compound_permit_flag: Option<Seq<char>>,
    pub compound_forbid_flag: Option<Seq<char>>,
    pub compound_more_suffixes: bool,
    pub compound_root: Option<Seq<char>>,
    pub compound_word_max: nat,
    pub compound_forbid_dup: bool,
    pub compound_forbid_repeat: bool,
    pub compound_check_case: bool,
    pub compound_check_triple: bool,
    pub compound_simplify_triple: bool,
    pub compound_forbid_pats: Seq<CompoundPatternView>,
    pub compound_force_upper_flag: Option<Seq<char>>,
    pub compound_syllable: (nat, Seq<char>),
    pub syllable_num: Seq<char>,
    pub affix_rules: Seq<GroupView>,
    pub afx_circumflex_flag: Option<Seq<char>>,
    pub forbidden_word_flag: Option<Seq<char>>,
    pub afx_full_strip: bool,
    pub afx_keep_case_flag: Seq<char>,
    pub input_conversions: Seq<ConversionView>,
    pub output_conversions: Seq<ConversionView>,
    pub afx_needed_flag: Seq<char>,
    pub afx_substandard_flag: Seq<char>,
    pub afx_word_chars: Seq<char>,
    pub afx_check_sharps: bool,
    pub name: Seq<char>,
    pub home_page: Seq<char>,
    pub version: Seq<char>,
}

impl View for Config {
    type V = ConfigView;

    closed spec fn view(&self) -> ConfigView {
        ConfigView {
            encoding: self.encoding,
            flagtype: self.flagtype,
            complex_prefixes: self.complex_prefixes,
            lang: self.lang@,
            ignore_chars: self.ignore_chars@,
            affix_alias: strings_view(self.affix_alias@),
            morph_alias: strings_view(self.morph_alias@),
            neighbor_keys: strings_view(self.neighbor_keys@),
            replacements: conversions_view(self.replacements@),
            try_characters: self.try_characters@,
            nosuggest_flag: opt_view(self.nosuggest_flag),
            compound_sug_max: self.compound_sug_max as nat,
            warn_rare_flag: opt_view(self.warn_rare_flag),
            no_split_suggestions: self.no_split_suggestions,
            keep_term_dots: self.keep_term_dots,
            forbid_warn_words: self.forbid_warn_words,
            maps: self.maps@,
            phonetics: phonetics_view(self.phonetics@),
            ngram_sug_max: self.ngram_sug_max as nat,
            ngram_diff_max: self.ngram_diff_max as nat,
            ngram_limit_to_diff_max: self.ngram_limit_to_diff_max,
            break_separators: strings_view(self.break_separators@),
            compound_rules: strings_view(self.compound_rules@),
            compound_min_length: self.compound_min_length as nat,
            compound_flag: opt_view(self.compound_flag),
            compound_begin_flag: opt_view(self.compound_begin_flag),
            compound_end_flag: opt_view(self.compound_end_flag),
            compound_middle_flag: opt_view(self.compound_middle_flag),
            compound_only_flag: opt_view(self.compound_only_flag),
            compound_permit_flag: opt_view(self.compound_permit_flag),
            compound_forbid_flag: opt_view(self.compound_forbid_flag),
            compound_more_suffixes: self.compound_more_suffixes,
            compound_root: opt_view(self.compound_root),
            compound_word_max: self.compound_word_max as nat,
            compound_forbid_dup: self.compound_forbid_dup,
            compound_forbid_repeat: self.compound_forbid_repeat,
            compound_check_case: self.compound_check_case,
            compound_check_triple: self.compound_check_triple,
            compound_simplify_triple: self.compound_simplify_triple,
            compound_forbid_pats: patterns_view(self.compound_forbid_pats@),
            compound_force_upper_flag: opt_view(self.compound_force_upper_flag),
            compound_syllable: (self.compound_syllable.count as nat, self.compound_syllable.vowels@),
            syllable_num: self.syllable_num@,
            affix_rules: groups_view(self.affix_rules@),
            afx_circumflex_flag: opt_view(self.afx_circumflex_flag),
            forbidden_word_flag: opt_view(self.forbidden_word_flag),
            afx_full_strip: self.afx_full_strip,
            afx_keep_case_flag: self.afx_keep_case_flag@,
            input_conversions: conversions_view(self.input_conversions@),
            output_conversions: conversions_view(self.output_conversions@),
            afx_needed_flag: self.afx_needed_flag@,
            afx_substandard_flag: self.afx_substandard_flag@,
            afx_word_chars: self.afx_word_chars@,
            afx_check_sharps: self.afx_check_sharps,
            name: self.name@,
            home_page: self.home_page@,
            version: self.version@,
        }
    }
}

/// The settings of a file that sets nothing.
pub open spec fn default_config() -> ConfigView {
    ConfigView {
        encoding: Encoding::Utf8,
        flagtype: FlagType::Ascii,
        complex_prefixes: false,
        lang: Seq::empty(),
        ignore_chars: Seq::empty(),
        affix_alias: Seq::empty(),
        morph_alias: Seq::empty(),
        neighbor_keys: Seq::empty(),
        replacements: Seq::empty(),
        try_characters: Seq::empty(),
        nosuggest_flag: None,
        compound_sug_max: 0,
        warn_rare_flag: None,
        no_split_suggestions: false,
        keep_term_dots: false,
        forbid_warn_words: false,
        maps: Seq::empty(),
        phonetics: Seq::empty(),
        ngram_sug_max: 0,
        ngram_diff_max: 0,
        ngram_limit_to_diff_max: false,
        break_separators: Seq::empty(),
        compound_rules: Seq::empty(),
        compound_min_length: 0,
        compound_flag: None,
        compound_begin_flag: None,
        compound_end_flag: None,
        compound_middle_flag: None,
        compound_only_flag: None,
        compound_permit_flag: None,
        compound_forbid_flag: None,
        compound_more_suffixes: false,
        compound_root: None,
        compound_word_max: 0,
        compound_forbid_dup: false,
        compound_forbid_repeat: false,
        compound_check_case: false,
        compound_check_triple: false,
        compound_simplify_triple: false,
        compound_forbid_pats: Seq::empty(),
        compound_force_upper_flag: None,
        compound_syllable: (0, Seq::empty()),
        syllable_num: Seq::empty(),
        affix_rules: Seq::empty(),
        afx_circumflex_flag: None,
        forbidden_word_flag: None,
        afx_full_strip: false,
        afx_keep_case_flag: Seq::empty(),
        input_conversions: Seq::empty(),
        output_conversions: Seq::empty(),
        afx_needed_flag: Seq::empty(),
        afx_substandard_flag: Seq::empty(),
        afx_word_chars: Seq::empty(),
        afx_check_sharps: false,
        name: Seq::empty(),
        home_page: Seq::empty(),
        version: Seq::empty(),
    }
}

/// The flag type that an entry holds.
pub open spec fn vflagtype(v: NodeValue) -> FlagType {
    match v {
        NodeValue::FlagType(x) => x,
        _ => FlagType::Ascii,
    }
}

/// The settings after the entry `n`. Comments, `FORBIDWARN`,
/// `LEMMA_PRESENT` and `PSEUDOROOT` change nothing.
pub open spec fn config_step(c: ConfigView, n: NodeView) -> ConfigView {
    if n.key <= 7 {
        config_keys0(c, n)
    } else if n.key <= 15 {
        config_keys1(c, n)
    } else if n.key <= 23 {
        config_keys2(c, n)
    } else if n.key <= 31 {
        config_keys3(c, n)
    } else if n.key <= 39 {
        config_keys4(c, n)
    } else if n.key <= 47 {
        config_keys5(c, n)
    } else if n.key <= 55 {
        config_keys6(c, n)
    } else {
        config_keys7(c, n)
    }
}

/// [`config_step`] for the keys 0 to 7.
pub open spec fn config_keys0(c: ConfigView, n: NodeView) -> ConfigView {
    if n.key == 0 {
        c
    } else if n.key == 1 {
        ConfigView { encoding: venc(n.value), ..c }
    } else if n.key == 2 {
        ConfigView { flagtype: vflagtype(n.value), ..c }
    } else if n.key == 3 {
        ConfigView { complex_prefixes: true, ..c }
    } else if n.key == 4 {
        ConfigView { lang: vtext(n.value), ..c }
    } else if n.key == 5 {
        ConfigView { ignore_chars: vchars(n.value), ..c }
    } else if n.key == 6 {
        ConfigView { affix_alias: vtexts(n.value), ..c }
    } else {
        ConfigView { morph_alias: vtexts(n.value), ..c }
    }
}

/// [`config_step`] for the keys 8 to 15.
pub open spec fn config_keys1(c: ConfigView, n: NodeView) -> ConfigView {
    if n.key == 8 {
        ConfigView { neighbor_keys: vtexts(n.value), ..c }
    } else if n.key == 9 {
        ConfigView { try_characters: vtext(n.value), ..c }
    } else if n.key == 10 {
        ConfigView { nosuggest_flag: Some(vtext(n.value)), ..c }
    } else if n.key == 11 {
        ConfigView { compound_sug_max: vnum(n.value), ..c }
    } else if n.key == 12 {
        ConfigView { ngram_sug_max: vnum(n.value), ..c }
    } else if n.key == 13 {
        ConfigView { ngram_diff_max: vnum(n.value), ..c }
    } else if n.key == 14 {
        ConfigView { ngram_limit_to_diff_max: true, ..c }
    } else {
        ConfigView { no_split_suggestions: true, ..c }
    }
}

/// [`config_step`] for the keys 16 to 23.
pub open spec fn config_keys2(c: ConfigView, n: NodeView) -> ConfigView {
    if n.key == 16 {
        ConfigView { keep_term_dots: true, ..c }
    } else if n.key == 17 {
        ConfigView { replacements: vconvs(n.value), ..c }
    } else if n.key == 18 {
        ConfigView { maps: vmaps(n.value), ..c }
    } else if n.key == 19 {
        ConfigView { phonetics: vphones(n.value), ..c }
    } else if n.key == 20 {
        ConfigView { warn_rare_flag: Some(vtext(n.value)), ..c }
    } else if n.key == 21 {
        c
    } else if n.key == 22 {
        ConfigView { break_separators: vtexts(n.value), ..c }
    } else {
        ConfigView { compound_rules: vtexts(n.value), ..c }
    }
}

/// [`config_step`] for the keys 24 to 31.
pub open spec fn config_keys3(c: ConfigView, n: NodeView) -> ConfigView {
    if n.key == 24 {
        ConfigView { compound_min_length: vnum(n.value), ..c }
    } else if n.key == 25 {
        ConfigView { compound_flag: Some(vtext(n.value)), ..c }
    } else if n.key == 26 {
        ConfigView { compound_begin_flag: Some(vtext(n.value)), ..c }
    } else if n.key == 27 {
        ConfigView { compound_end_flag: Some(vtext(n.value)), ..c }
    } else if n.key == 28 {
        ConfigView { compound_middle_flag: Some(vtext(n.value)), ..c }
    } else if n.key == 29 {
        ConfigView { compound_only_flag: Some(vtext(n.value)), ..c }
    } else if n.key == 30 {
        ConfigView { compound_permit_flag: Some(vtext(n.value)), ..c }
    } else {
        ConfigView { compound_forbid_flag: Some(vtext(n.value)), ..c }
    }
}

/// [`config_step`] for the keys 32 to 39.
pub open spec fn config_keys4(c: ConfigView, n: NodeView) -> ConfigView {
    if n.key == 32 {
        ConfigView { compound_more_suffixes: true, ..c }
    } else if n.key == 33 {
        ConfigView { compound_root: Some(vtext(n.value)), ..c }
    } else if n.key == 34 {
        ConfigView { compound_word_max: vnum(n.value), ..c }
    } else if n.key == 35 {
        ConfigView { compound_forbid_dup: true, ..c }
    } else if n.key == 36 {
        ConfigView { compound_forbid_repeat: true, ..c }
    } else if n.key == 37 {
        ConfigView { compound_check_case: true, ..c }
    } else if n.key == 38 {
        ConfigView { compound_check_triple: true, ..c }
    } else {
        ConfigView { compound_simplify_triple: true, ..c }
    }
}

/// [`config_step`] for the keys 40 to 47.
pub open spec fn config_keys5(c: ConfigView, n: NodeView) -> ConfigView {
    if n.key == 40 {
        ConfigView { compound_forbid_pats: vpats(n.value), ..c }
    } else if n.key == 41 {
        ConfigView { compound_force_upper_flag: Some(vtext(n.value)), ..c }
    } else if n.key == 42 {
        ConfigView { compound_syllable: vsyll(n.value), ..c }
    } else if n.key == 43 {
        ConfigView { syllable_num: vtext(n.value), ..c }
    } else if n.key == 44 {
        ConfigView { affix_rules: c.affix_rules.push(vgroup(n.value)), ..c }
    } else if n.key == 45 {
        ConfigView { affix_rules: c.affix_rules.push(vgroup(n.value)), ..c }
    } else if n.key == 46 {
        ConfigView { afx_circumflex_flag: Some(vtext(n.value)), ..c }
    } else {
        ConfigView { forbidden_word_flag: Some(vtext(n.value)), ..c }
    }
}

/// [`config_step`] for the keys 48 to 55.
pub open spec fn config_keys6(c: ConfigView, n: NodeView) -> ConfigView {
    if n.key == 48 {
        ConfigView { afx_full_strip: true, ..c }
    } else if n.key == 49 {
        ConfigView { afx_keep_case_flag: vtext(n.value), ..c }
    } else if n.key == 50 {
        ConfigView { input_conversions: vconvs(n.value), ..c }
    } else if n.key == 51 {
        ConfigView { output_conversions: vconvs(n.value), ..c }
    } else if n.key == 52 {
        c
    } else if n.key == 53 {
        ConfigView { afx_needed_flag: vtext(n.value), ..c }
    } else if n.key == 54 {
        c
    } else {
        ConfigView { afx_substandard_flag: vtext(n.value), ..c }
    }
}

/// [`config_step`] for the keys 56 to 60.
pub open spec fn config_keys7(c: ConfigView, n: NodeView) -> ConfigView {
    if n.key == 56 {
        ConfigView { afx_word_chars: vtext(n.value), ..c }
    } else if n.key == 57 {
        ConfigView { afx_check_sharps: true, ..c }
    } else if n.key == 58 {
        ConfigView { name: vtext(n.value), ..c }
    } else if n.key == 59 {
        ConfigView { home_page: vtext(n.value), ..c }
    } else {
        ConfigView { version: vtext(n.value), ..c }
    }
}

/// The settings after the entries `ns`, in order.
pub open spec fn config_fold(c: ConfigView, ns: Seq<NodeView>) -> ConfigView
    decreases ns.len(),
{
    if ns.len() == 0 {
        c
    } else {
        config_fold(config_step(c, ns[0]), ns.drop_first())
    }
}

/// Whether the entry `n` is one that these settings cannot take yet: a
/// comment or `FORBIDWARN`.
pub open spec fn unsupported_entry(n: NodeView) -> bool {
    n.key == 0 || n.key == 21
}

impl Default for Config {
    fn default() -> (r: Config)
        ensures
            r@ == default_config(),
    {
        let r = Config {
            encoding: Encoding::Utf8,
            flagtype: FlagType::Ascii,
            complex_prefixes: false,
            lang: String::new(),
            ignore_chars: Vec::new(),
            affix_alias: Vec::new(),
            morph_alias: Vec::new(),
            neighbor_keys: Vec::new(),
            replacements: Vec::new(),
            try_characters: String::new(),
            nosuggest_flag: None,
            compound_sug_max: 0,
            warn_rare_flag: None,
            no_split_suggestions: false,
            keep_term_dots: false,
            forbid_warn_words: false,
            maps: Vec::new(),
            phonetics: Vec::new(),
            ngram_sug_max: 0,
            ngram_diff_max: 0,
            ngram_limit_to_diff_max: false,
            break_separators: Vec::new(),
            compound_rules: Vec::new(),
            compound_min_length: 0,
            compound_flag: None,
            compound_begin_flag: None,
            compound_end_flag: None,
            compound_middle_flag: None,
            compound_only_flag: None,
            compound_permit_flag: None,
            compound_forbid_flag: None,
            compound_more_suffixes: false,
            compound_root: None,
            compound_word_max: 0,
            compound_forbid_dup: false,
            compound_forbid_repeat: false,
            compound_check_case: false,
            compound_check_triple: false,
            compound_simplify_triple: false,
            compound_forbid_pats: Vec::new(),
            compound_force_upper_flag: None,
            compound_syllable: CompoundSyllable::default(),
            syllable_num: String::new(),
            affix_rules: Vec::new(),
            afx_circumflex_flag: None,
            forbidden_word_flag: None,
            afx_full_strip: false,
            afx_keep_case_flag: String::new(),
            input_conversions: Vec::new(),
            output_conversions: Vec::new(),
            afx_needed_flag: String::new(),
            afx_substandard_flag: String::new(),
            afx_word_chars: String::new(),
            afx_check_sharps: false,
            name: String::new(),
            home_page: String::new(),
            version: String::new(),
        };
        proof {
            assert(strings_view(r.affix_alias@) =~= Seq::<Seq<char>>::empty());
            assert(strings_view(r.morph_alias@) =~= Seq::<Seq<char>>::empty());
            assert(strings_view(r.neighbor_keys@) =~= Seq::<Seq<char>>::empty());
            assert(conversions_view(r.replacements@) =~= Seq::<ConversionView>::empty());
            assert(phonetics_view(r.phonetics@) =~= Seq::<PhoneticView>::empty());
            assert(strings_view(r.break_separators@) =~= Seq::<Seq<char>>::empty());
            assert(strings_view(r.compound_rules@) =~= Seq::<Seq<char>>::empty());
            assert(patterns_view(r.compound_forbid_pats@) =~= Seq::<CompoundPatternView>::empty());
            assert(groups_view(r.affix_rules@) =~= Seq::<GroupView>::empty());
            assert(conversions_view(r.input_conversions@) =~= Seq::<ConversionView>::empty());
            assert(conversions_view(r.output_conversions@) =~= Seq::<ConversionView>::empty());
        }
        r
    }
}

impl Config {
    /// Apply one entry to these settings.
    fn apply(&mut self, node: AffixNode)
        requires
            !unsupported_entry(node@),
        ensures
            final(self)@ == config_step(old(self)@, node@),
    {
        match node {
            AffixNode::Comment => {},
            AffixNode::Encoding(_) => self.apply_set(node),
            AffixNode::FlagType(_) => self.apply_flag(node),
            AffixNode::ComplexPrefixes => self.apply_complexprefixes(node),
            AffixNode::Language(_) => self.apply_lang(node),
            AffixNode::IgnoreChars(_) => self.apply_ignore(node),
            AffixNode::AffixAlias(_) => self.apply_af(node),
            AffixNode::MorphAlias(_) => self.apply_am(node),
            AffixNode::NeighborKeys(_) => self.apply_key(node),
            AffixNode::TryCharacters(_) => self.apply_try(node),
            AffixNode::NoSuggestFlag(_) => self.apply_nosuggest(node),
            AffixNode::CompoundSugMax(_) => self.apply_maxcpdsugs(node),
            AffixNode::NGramSugMax(_) => self.apply_maxngramsugs(node),
            AffixNode::NGramDiffMax(_) => self.apply_maxdiff(node),
            AffixNode::NGramLimitToDiffMax => self.apply_onlymaxdiff(node),
            AffixNode::NoSplitSuggestions => self.apply_nosplitsugs(node),
            AffixNode::KeepTermDots => self.apply_sugswithdots(node),
            AffixNode::Replacement(_) => self.apply_rep(node),
            AffixNode::Mapping(_) => self.apply_map(node),
            AffixNode::Phonetic(_) => self.apply_phone(node),
            AffixNode::WarnRareFlag(_) => self.apply_warn(node),
            AffixNode::ForbidWarnWords => {},
            AffixNode::BreakSeparator(_) => self.apply_break(node),
            AffixNode::CompoundRule(_) => self.apply_compoundrule(node),
            AffixNode::CompoundMinLen(_) => self.apply_compoundmin(node),
            AffixNode::CompoundFlag(_) => self.apply_compoundflag(node),
            AffixNode::CompoundBeginFlag(_) => self.apply_compoundbegin(node),
            AffixNode::CompoundEndFlag(_) => self.apply_compoundlast(node),
            AffixNode::CompoundMiddleFlag(_) => self.apply_compoundmiddle(node),
            AffixNode::CompoundOnlyFlag(_) => self.apply_onlyincompound(node),
            AffixNode::CompoundPermitFlag(_) => self.apply_compoundpermitflag(node),
            AffixNode::CompoundForbidFlag(_) => self.apply_compoundforbidflag(node),
            AffixNode::CompoundMoreSuffixes => self.apply_compoundmoresuffixes(node),
            AffixNode::CompoundRootFlag(_) => self.apply_compoundroot(node),
            AffixNode::CompoundWordMax(_) => self.apply_compoundwordmax(node),
            AffixNode::CompoundForbidDup => self.apply_checkcompounddup(node),
            AffixNode::CompoundForbidRepeat => self.apply_checkcompoundrep(node),
            AffixNode::CompoundCheckCase => self.apply_checkcompoundcase(node),
            AffixNode::CompoundCheckTriple => self.apply_checkcompoundtriple(node),
            AffixNode::CompoundSimplifyTriple => self.apply_simplifiedtriple(node),
            AffixNode::CompoundForbidPats(_) => self.apply_checkcompoundpattern(node),
            AffixNode::CompoundForceUpFlag(_) => self.apply_forceucase(node),
            AffixNode::CompoundSyllable(_) => self.apply_compoundsyllable(node),
            AffixNode::SyllableNum(_) => self.apply_syllablenum(node),
            AffixNode::Prefix(_) => self.apply_pfx(node),
            AffixNode::Suffix(_) => self.apply_sfx(node),
            AffixNode::AfxCircumfixFlag(_) => self.apply_circumfix(node),
            AffixNode::ForbiddenWordFlag(_) => self.apply_forbiddenword(node),
            AffixNode::AfxFullStrip => self.apply_fullstrip(node),
            AffixNode::AfxKeepCaseFlag(_) => self.apply_keepcase(node),
            AffixNode::AfxInputConversion(_) => self.apply_iconv(node),
            AffixNode::AfxOutputConversion(_) => self.apply_oconv(node),
            AffixNode::AfxLemmaPresentFlag(_) => {},
            AffixNode::AfxNeededFlag(_) => self.apply_needaffix(node),
            AffixNode::AfxPseudoRootFlag(_) => {},
            AffixNode::AfxSubstandardFlag(_) => self.apply_substandard(node),
            AffixNode::AfxWordChars(_) => self.apply_wordchars(node),
            AffixNode::AfxCheckSharps => self.apply_checksharps(node),
            AffixNode::Name(_) => self.apply_name(node),
            AffixNode::HomePage(_) => self.apply_home(node),
            AffixNode::Version(_) => self.apply_version(node),
        }
    }

    fn apply_set(&mut self, node: AffixNode)
        requires
            node is Encoding,
        ensures
            final(self)@ == config_step(old(self)@, node@),
    {
        match node {
            AffixNode::Encoding(v) => {
                self.encoding = v;
            },
            _ => {},
        }
    }

    fn apply_flag(&mut self, node: AffixNode)
        requires
            node is FlagType,
        ensures
            final(self)@ == config_step(old(self)@, node@),
    {
        match node {
            AffixNode::FlagType(v) => {
                self.flagtype = v;
            },
            _ => {},
        }
    }

    fn apply_complexprefixes(&mut self, node: AffixNode)
        requires
            node is ComplexPrefixes,
        ensures
            final(self)@ == config_step(old(self)@, node@),
    {
        match node {
            AffixNode::ComplexPrefixes => {
                self.complex_prefixes = true;
            },
            _ => {},
        }
    }

    fn apply_lang(&mut self, node: AffixNode)
        requires
            node is Language,
        ensures
            final(self)@ == config_step(old(self)@, node@),
    {
        match node {
            AffixNode::Language(v) => {
                self.lang = v;
            },
            _ => {},
        }
    }

    fn apply_ignore(&mut self, node: AffixNode)
        requires
            node is IgnoreChars,
        ensures
            final(self)@ == config_step(old(self)@, node@),
    {
        match node {
            AffixNode::IgnoreChars(v) => {
                self.ignore_chars = v;
            },
            _ => {},
        }
    }

    fn apply_af(&mut self, node: AffixNode)
        requires
            node is AffixAlias,
        ensures
            final(self)@ == config_step(old(self)@, node@),
    {
        match node {
            AffixNode::AffixAlias(v) => {
                self.affix_alias = v;
            },
            _ => {},
        }
    }

    fn apply_am(&mut self, node: AffixNode)
        requires
            node is MorphAlias,
        ensures
            final(self)@ == config_step(old(self)@, node@),
    {
        match node {
            AffixNode::MorphAlias(v) => {
                self.morph_alias = v;
            },
            _ => {},
        }
    }

    fn apply_key(&mut self, node: AffixNode)
        requires
            node is NeighborKeys,
        ensures
            final(self)@ == config_step(old(self)@, node@),
    {
        match node {
            AffixNode::NeighborKeys(v) => {
                self.neighbor_keys = v;
            },
            _ => {},
        }
    }

    fn apply_try(&mut self, node: AffixNode)
        requires
            node is TryCharacters,
        ensures
            final(self)@ == config_step(old(self)@, node@),
    {
        match node {
            AffixNode::TryCharacters(v) => {
                self.try_characters = v;
            },
            _ => {},
        }
    }

    fn apply_nosuggest(&mut self, node: AffixNode)
        requires
            node is NoSuggestFlag,
        ensures
            final(self)@ == config_step(old(self)@, node@),
    {
        match node {
            AffixNode::NoSuggestFlag(v) => {
                self.nosuggest_flag = Some(v);
            },
            _ => {},
        }
    }

    fn apply_maxcpdsugs(&mut self, node: AffixNode)
        requires
            node is CompoundSugMax,
        ensures
            final(self)@ == config_step(old(self)@, node@),
    {
        match node {
            AffixNode::CompoundSugMax(v) => {
                self.compound_sug_max = v;
            },
            _ => {},
        }
    }

    fn apply_maxngramsugs(&mut self, node: AffixNode)
        requires
            node is NGramSugMax,
        ensures
            final(self)@ == config_step(old(self)@, node@),
    {
        match node {
            AffixNode::NGramSugMax(v) => {
                self.ngram_sug_max = v;
            },
            _ => {},
        }
    }

    fn apply_maxdiff(&mut self, node: AffixNode)
        requires
            node is NGramDiffMax,
        ensures
            final(self)@ == config_step(old(self)@, node@),
    {
        match node {
            AffixNode::NGramDiffMax(v) => {
                self.ngram_diff_max = v;
            },
            _ => {},
        }
    }

    fn apply_onlymaxdiff(&mut self, node: AffixNode)
        requires
            node is NGramLimitToDiffMax,
        ensures
            final(self)@ == config_step(old(self)@, node@),
    {
        match node {
            AffixNode::NGramLimitToDiffMax => {
                self.ngram_limit_to_diff_max = true;
            },
            _ => {},
        }
    }

    fn apply_nosplitsugs(&mut self, node: AffixNode)
        requires
            node is NoSplitSuggestions,
        ensures
            final(self)@ == config_step(old(self)@, node@),
    {
        match node {
            AffixNode::NoSplitSuggestions => {
                self.no_split_suggestions = true;
            },
            _ => {},
        }
    }

    fn apply_sugswithdots(&mut self, node: AffixNode)
        requires
            node is KeepTermDots,
        ensures
            final(self)@ == config_step(old(self)@, node@),
    {
        match node {
            AffixNode::KeepTermDots => {
                self.keep_term_dots = true;
            },
            _ => {},
        }
    }

    fn apply_rep(&mut self, node: AffixNode)
        requires
            node is Replacement,
        ensures
            final(self)@ == config_step(old(self)@, node@),
    {
        match node {
            AffixNode::Replacement(v) => {
                self.replacements = v;
            },
            _ => {},
        }
    }

    fn apply_map(&mut self, node: AffixNode)
        requires
            node is Mapping,
        ensures
            final(self)@ == config_step(old(self)@, node@),
    {
        match node {
            AffixNode::Mapping(v) => {
                self.maps = v;
            },
            _ => {},
        }
    }

    fn apply_phone(&mut self, node: AffixNode)
        requires
            node is Phonetic,
        ensures
            final(self)@ == config_step(old(self)@, node@),
    {
        match node {
            AffixNode::Phonetic(v) => {
                self.phonetics = v;
            },
            _ => {},
        }
    }

    fn apply_warn(&mut self, node: AffixNode)
        requires
            node is WarnRareFlag,
        ensures
            final(self)@ == config_step(old(self)@, node@),
    {
        match node {
            AffixNode::WarnRareFlag(v) => {
                self.warn_rare_flag = Some(v);
            },
            _ => {},
        }
    }

    fn apply_break(&mut self, node: AffixNode)
        requires
            node is BreakSeparator,
        ensures
            final(self)@ == config_step(old(self)@, node@),
    {
        match node {
            AffixNode::BreakSeparator(v) => {
                self.break_separators = v;
            },
            _ => {},
        }
    }

    fn apply_compoundrule(&mut self, node: AffixNode)
        requires
            node is CompoundRule,
        ensures
            final(self)@ == config_step(old(self)@, node@),
    {
        match node {
            AffixNode::CompoundRule(v) => {
                self.compound_rules = v;
            },
            _ => {},
        }
    }

    fn apply_compoundmin(&mut self, node: AffixNode)
        requires
            node is CompoundMinLen,
        ensures
            final(self)@ == config_step(old(self)@, node@),
    {
        match node {
            AffixNode::CompoundMinLen(v) => {
                self.compound_min_length = v;
            },
            _ => {},
        }
    }

    fn apply_compoundflag(&mut self, node: AffixNode)
        requires
            node is CompoundFlag,
        ensures
            final(self)@ == config_step(old(self)@, node@),
    {
        match node {
            AffixNode::CompoundFlag(v) => {
                self.compound_flag = Some(v);
            },
            _ => {},
        }
    }

    fn apply_compoundbegin(&mut self, node: AffixNode)
        requires
            node is CompoundBeginFlag,
        ensures
            final(self)@ == config_step(old(self)@, node@),
    {
        match node {
            AffixNode::CompoundBeginFlag(v) => {
                self.compound_begin_flag = Some(v);
            },
            _ => {},
        }
    }

    fn apply_compoundlast(&mut self, node: AffixNode)
        requires
            node is CompoundEndFlag,
        ensures
            final(self)@ == config_step(old(self)@, node@),
    {
        match node {
            AffixNode::CompoundEndFlag(v) => {
                self.compound_end_flag = Some(v);
            },
            _ => {},
        }
    }

    fn apply_compoundmiddle(&mut self, node: AffixNode)
        requires
            node is CompoundMiddleFlag,
        ensures
            final(self)@ == config_step(old(self)@, node@),
    {
        match node {
            AffixNode::CompoundMiddleFlag(v) => {
                self.compound_middle_flag = Some(v);
            },
            _ => {},
        }
    }

    fn apply_onlyincompound(&mut self, node: AffixNode)
        requires
            node is CompoundOnlyFlag,
        ensures
            final(self)@ == config_step(old(self)@, node@),
    {
        match node {
            AffixNode::CompoundOnlyFlag(v) => {
                self.compound_only_flag = Some(v);
            },
            _ => {},
        }
    }

    fn apply_compoundpermitflag(&mut self, node: AffixNode)
        requires
            node is CompoundPermitFlag,
        ensures
            final(self)@ == config_step(old(self)@, node@),
    {
        match node {
            AffixNode::CompoundPermitFlag(v) => {
                self.compound_permit_flag = Some(v);
            },
            _ => {},
        }
    }

    fn apply_compoundforbidflag(&mut self, node: AffixNode)
        requires
            node is CompoundForbidFlag,
        ensures
            final(self)@ == config_step(old(self)@, node@),
    {
        match node {
            AffixNode::CompoundForbidFlag(v) => {
                self.compound_forbid_flag = Some(v);
            },
            _ => {},
        }
    }

    fn apply_compoundmoresuffixes(&mut self, node: AffixNode)
        requires
            node is CompoundMoreSuffixes,
        ensures
            final(self)@ == config_step(old(self)@, node@),
    {
        match node {
            AffixNode::CompoundMoreSuffixes => {
                self.compound_more_suffixes = true;
            },
            _ => {},
        }
    }

    fn apply_compoundroot(&mut self, node: AffixNode)
        requires
            node is CompoundRootFlag,
        ensures
            final(self)@ == config_step(old(self)@, node@),
    {
        match node {
            AffixNode::CompoundRootFlag(v) => {
                self.compound_root = Some(v);
            },
            _ => {},
        }
    }

    fn apply_compoundwordmax(&mut self, node: AffixNode)
        requires
            node is CompoundWordMax,
        ensures
            final(self)@ == config_step(old(self)@, node@),
    {
        match node {
            AffixNode::CompoundWordMax(v) => {
                self.compound_word_max = v;
            },
            _ => {},
        }
    }

    fn apply_checkcompounddup(&mut self, node: AffixNode)
        requires
            node is CompoundForbidDup,
        ensures
            final(self)@ == config_step(old(self)@, node@),
    {
        match node {
            AffixNode::CompoundForbidDup => {
                self.compound_forbid_dup = true;
            },
            _ => {},
        }
    }

    fn apply_checkcompoundrep(&mut self, node: AffixNode)
        requires
            node is CompoundForbidRepeat,
        ensures
            final(self)@ == config_step(old(self)@, node@),
    {
        match node {
            AffixNode::CompoundForbidRepeat => {
                self.compound_forbid_repeat = true;
            },
            _ => {},
        }
    }

    fn apply_checkcompoundcase(&mut self, node: AffixNode)
        requires
            node is CompoundCheckCase,
        ensures
            final(self)@ == config_step(old(self)@, node@),
    {
        match node {
            AffixNode::CompoundCheckCase => {
                self.compound_check_case = true;
            },
            _ => {},
        }
    }

    fn apply_checkcompoundtriple(&mut self, node: AffixNode)
        requires
            node is CompoundCheckTriple,
        ensures
            final(self)@ == config_step(old(self)@, node@),
    {
        match node {
            AffixNode::CompoundCheckTriple => {
                self.compound_check_triple = true;
            },
            _ => {},
        }
    }

    fn apply_simplifiedtriple(&mut self, node: AffixNode)
        requires
            node is CompoundSimplifyTriple,
        ensures
            final(self)@ == config_step(old(self)@, node@),
    {
        match node {
            AffixNode::CompoundSimplifyTriple => {
                self.compound_simplify_triple = true;
            },
            _ => {},
        }
    }

    fn apply_checkcompoundpattern(&mut self, node: AffixNode)
        requires
            node is CompoundForbidPats,
        ensures
            final(self)@ == config_step(old(self)@, node@),
    {
        match node {
            AffixNode::CompoundForbidPats(v) => {
                self.compound_forbid_pats = v;
            },
            _ => {},
        }
    }

    fn apply_forceucase(&mut self, node: AffixNode)
        requires
            node is CompoundForceUpFlag,
        ensures
            final(self)@ == config_step(old(self)@, node@),
    {
        match node {
            AffixNode::CompoundForceUpFlag(v) => {
                self.compound_force_upper_flag = Some(v);
            },
            _ => {},
        }
    }

    fn apply_compoundsyllable(&mut self, node: AffixNode)
        requires
            node is CompoundSyllable,
        ensures
            final(self)@ == config_step(old(self)@, node@),
    {
        match node {
            AffixNode::CompoundSyllable(v) => {
                self.compound_syllable = v;
            },
            _ => {},
        }
    }

    fn apply_syllablenum(&mut self, node: AffixNode)
        requires
            node is SyllableNum,
        ensures
            final(self)@ == config_step(old(self)@, node@),
    {
        match node {
            AffixNode::SyllableNum(v) => {
                self.syllable_num = v;
            },
            _ => {},
        }
    }

    fn apply_pfx(&mut self, node: AffixNode)
        requires
            node is Prefix,
        ensures
            final(self)@ == config_step(old(self)@, node@),
    {
        match node {
            AffixNode::Prefix(v) => {
                self.affix_rules.push(v);
                proof {
                    assert(groups_view(self.affix_rules@) =~= groups_view(old(self).affix_rules@).push(vgroup(node@.value)));
                }
            },
            _ => {},
        }
    }

    fn apply_sfx(&mut self, node: AffixNode)
        requires
            node is Suffix,
        ensures
            final(self)@ == config_step(old(self)@, node@),
    {
        match node {
            AffixNode::Suffix(v) => {
                self.affix_rules.push(v);
                proof {
                    assert(groups_view(self.affix_rules@) =~= groups_view(old(self).affix_rules@).push(vgroup(node@.value)));
                }
            },
            _ => {},
        }
    }

    fn apply_circumfix(&mut self, node: AffixNode)
        requires
            node is AfxCircumfixFlag,
        ensures
            final(self)@ == config_step(old(self)@, node@),
    {
        match node {
            AffixNode::AfxCircumfixFlag(v) => {
                self.afx_circumflex_flag = Some(v);
            },
            _ => {},
        }
    }

    fn apply_forbiddenword(&mut self, node: AffixNode)
        requires
            node is ForbiddenWordFlag,
        ensures
            final(self)@ == config_step(old(self)@, node@),
    {
        match node {
            AffixNode::ForbiddenWordFlag(v) => {
                self.forbidden_word_flag = Some(v);
            },
            _ => {},
        }
    }

    fn apply_fullstrip(&mut self, node: AffixNode)
        requires
            node is AfxFullStrip,
        ensures
            final(self)@ == config_step(old(self)@, node@),
    {
        match node {
            AffixNode::AfxFullStrip => {
                self.afx_full_strip = true;
            },
            _ => {},
        }
    }

    fn apply_keepcase(&mut self, node: AffixNode)
        requires
            node is AfxKeepCaseFlag,
        ensures
            final(self)@ == config_step(old(self)@, node@),
    {
        match node {
            AffixNode::AfxKeepCaseFlag(v) => {
                self.afx_keep_case_flag = v;
            },
            _ => {},
        }
    }

    fn apply_iconv(&mut self, node: AffixNode)
        requires
            node is AfxInputConversion,
        ensures
            final(self)@ == config_step(old(self)@, node@),
    {
        match node {
            AffixNode::AfxInputConversion(v) => {
                self.input_conversions = v;
            },
            _ => {},
        }
    }

    fn apply_oconv(&mut self, node: AffixNode)
        requires
            node is AfxOutputConversion,
        ensures
            final(self)@ == config_step(old(self)@, node@),
    {
        match node {
            AffixNode::AfxOutputConversion(v) => {
                self.output_conversions = v;
            },
            _ => {},
        }
    }

    fn apply_needaffix(&mut self, node: AffixNode)
        requires
            node is AfxNeededFlag,
        ensures
            final(self)@ == config_step(old(self)@, node@),
    {
        match node {
            AffixNode::AfxNeededFlag(v) => {
                self.afx_needed_flag = v;
            },
            _ => {},
        }
    }

    fn apply_substandard(&mut self, node: AffixNode)
        requires
            node is AfxSubstandardFlag,
        ensures
            final(self)@ == config_step(old(self)@, node@),
    {
        match node {
            AffixNode::AfxSubstandardFlag(v) => {
                self.afx_substandard_flag = v;
            },
            _ => {},
        }
    }

    fn apply_wordchars(&mut self, node: AffixNode)
        requires
            node is AfxWordChars,
        ensures
            final(self)@ == config_step(old(self)@, node@),
    {
        match node {
            AffixNode::AfxWordChars(v) => {
                self.afx_word_chars = v;
            },
            _ => {},
        }
    }

    fn apply_checksharps(&mut self, node: AffixNode)
        requires
            node is AfxCheckSharps,
        ensures
            final(self)@ == config_step(old(self)@, node@),
    {
        match node {
            AffixNode::AfxCheckSharps => {
                self.afx_check_sharps = true;
            },
            _ => {},
        }
    }

    fn apply_name(&mut self, node: AffixNode)
        requires
            node is Name,
        ensures
            final(self)@ == config_step(old(self)@, node@),
    {
        match node {
            AffixNode::Name(v) => {
                self.name = v;
            },
            _ => {},
        }
    }

    fn apply_home(&mut self, node: AffixNode)
        requires
            node is HomePage,
        ensures
            final(self)@ == config_step(old(self)@, node@),
    {
        match node {
            AffixNode::HomePage(v) => {
                self.home_page = v;
            },
            _ => {},
        }
    }

    fn apply_version(&mut self, node: AffixNode)
        requires
            node is Version,
        ensures
            final(self)@ == config_step(old(self)@, node@),
    {
        match node {
            AffixNode::Version(v) => {
                self.version = v;
            },
            _ => {},
        }
    }

    /// The settings that a parsed affix file gives: every entry is applied
    /// in order, a later entry overriding an earlier one of the same key and
    /// every prefix or suffix table adding its group. The file may not hold
    /// comments or `FORBIDWARN`, which these settings cannot take yet.
    pub fn from_parsed(v: Vec<AffixNode>) -> (r: Config)
        requires
            forall|i: int| 0 <= i < v@.len() ==> !unsupported_entry(#[trigger] v@[i]@),
        ensures
            r@ == config_fold(default_config(), nodes_view(v@)),
    {
        let ghost ns = nodes_view(v@);
        let mut res = Config::default();
        let count: usize = v.len();
        proof {
            assert(ns.len() == count);
        }
        let mut rest = v;
        let mut nodes: Vec<AffixNode> = Vec::new();
        while rest.len() > 0
            invariant
                ns.len() == rest@.len() + nodes@.len(),
                ns.len() <= usize::MAX,
                forall|j: int| 0 <= j < rest@.len() ==> (#[trigger] rest@[j])@ == ns[j],
                forall|j: int| 0 <= j < nodes@.len() ==> (#[trigger] nodes@[j])@ == ns[ns.len() - 1 - j],
            decreases rest@.len(),
        {
            let x = rest.pop().unwrap();
            nodes.push(x);
        }
        let mut k: usize = 0;
        proof {
            assert(ns.skip(0) =~= ns);
        }
        while k < count
            invariant
                k + nodes@.len() == ns.len(),
                ns.len() == count,
                forall|j: int| 0 <= j < ns.len() ==> !unsupported_entry(#[trigger] ns[j]),
                forall|j: int| 0 <= j < nodes@.len() ==> (#[trigger] nodes@[j])@ == ns[ns.len() - 1 - j],
                config_fold(default_config(), ns) == config_fold(res@, ns.skip(k as int)),
            decreases nodes@.len(),
        {
            let node = nodes.pop().unwrap();
            proof {
                assert(node@ == ns[k as int]);
                assert(ns.skip(k as int)[0] == ns[k as int]);
                assert(ns.skip(k as int).drop_first() =~= ns.skip(k + 1));
            }
            res.apply(node);
            k += 1;
        }
        proof {
            assert(ns.skip(k as int).len() == 0);
        }
        res
    }
}

} // verus!

//! The dictionary: word lists built from an affix file and a word list, and
//! the checks made against them.

pub mod flags;
pub mod helpers;
pub mod parser;
pub mod rule;
pub mod types;
pub mod wordlist;

pub use self::flags::FlagValue;
pub use self::rule::{AfxRule, AfxRulePattern};

use std::collections::BTreeMap;
use std::sync::Arc;
use vstd::prelude::*;

use self::flags::{flag_entry, FlagEntry};
use self::helpers::{
    affixed_word_map, create_affixed_word_map, keep_word_pieces, pieces_view, rules_view, word_bounds_of,
    word_pieces, word_splitter, Piece, RuleView,
};
use self::parser::{
    dict_body, dict_entries, entry_lines, parse_dict, parse_personal_dict, personal_entries,
    DictEntry, DictEntryView, ParsedPersonalMeta, PersonalEntry, PersonalView, RE_DICT_LINE,
    RE_PERSONAL_LINE,
};
use self::rule::clone_morphs;
use self::types::{clone_arc, metas_view, Meta, MetaView, Source, SourceView};
pub use self::wordlist::WordList;
use self::wordlist::{add_meta, WordMap};
use crate::affix::{cfg_of, compiled_flags, entries_view, CfgView, FlagType, ParsedCfg, RuleType};
use crate::parser_affix::{parse_from, Parsed};
use crate::error::{BuildError, Error, WordNotFoundError};
use crate::levenshtein::{levenshtein_limit, seq_eq, spec_graphemes, weighted_distance};
use crate::morph::{morphs_view, MorphInfo, MorphView};
use crate::re::regex_compiles;
use crate::text::{lines_of, spec_to_lowercase, to_lowercase};
use unicode_segmentation::UnicodeSegmentation;

verus! {

broadcast use vstd::laws_cmp::group_laws_cmp;

/// Main dictionary object used for spellchecking.
///
/// It holds a main word list, a list of words to accept but never suggest,
/// a list of words that are never accepted, and the flags of its affix
/// configuration. The easiest way to construct a dictionary is a
/// [`DictBuilder`].
#[derive(Debug)]
pub struct Dictionary {
    /// Words that are accepted and suggested
    wordlist: WordList,
    /// Words to accept but never suggest
    wordlist_nosuggest: WordList,
    /// Words that are never accepted
    wordlist_forbidden: WordList,
    /// Affix flags and rules
    flags: BTreeMap<u32, FlagValue>,
    /// Type of flags to expect in the dictionary file
    flag_type: FlagType,
    /// The affix configuration
    parsed_config: Box<ParsedCfg>,
}

/// The value of a [`Dictionary`].
pub struct DictView {
    pub wordlist: WordMap,
    pub nosuggest: WordMap,
    pub forbidden: WordMap,
    /// What each flag stands for
    pub flags: Map<u32, FlagEntry>,
    pub flag_type: FlagType,
}

impl View for Dictionary {
    type V = DictView;

    closed spec fn view(&self) -> DictView {
        DictView {
            wordlist: self.wordlist.contents(),
            nosuggest: self.wordlist_nosuggest.contents(),
            forbidden: self.wordlist_forbidden.contents(),
            flags: entries_view(self.flags@),
            flag_type: self.flag_type,
        }
    }
}

/// Whether the dictionary `d` accepts the word `w`: it is not forbidden, and
/// it or its lowercase form is in the main list or the no-suggest list.
pub open spec fn accepts(d: DictView, w: Seq<char>) -> bool {
    let lower = spec_to_lowercase(w);
    !d.forbidden.contains_key(w) && (d.wordlist.contains_key(w) || d.wordlist.contains_key(lower)
        || d.nosuggest.contains_key(w) || d.nosuggest.contains_key(lower))
}

/// The pieces of `ps` whose words `d` does not accept, in order.
pub open spec fn rejected(d: DictView, ps: Seq<Piece>) -> Seq<Piece>
    decreases ps.len(),
{
    if ps.len() == 0 {
        Seq::empty()
    } else if accepts(d, ps.last().1) {
        rejected(d, ps.drop_last())
    } else {
        rejected(d, ps.drop_last()).push(ps.last())
    }
}

/// The words of `ws` that `d` does not accept, in order.
pub open spec fn unaccepted(d: DictView, ws: Seq<Seq<char>>) -> Seq<Seq<char>>
    decreases ws.len(),
{
    if ws.len() == 0 {
        Seq::empty()
    } else if accepts(d, ws.last()) {
        unaccepted(d, ws.drop_last())
    } else {
        unaccepted(d, ws.drop_last()).push(ws.last())
    }
}

/// The words of `s` (Unicode Standard Annex #29), as `unicode_words` of the
/// `unicode-segmentation` crate gives them.
pub uninterp spec fn unicode_words_of(s: Seq<char>) -> Seq<Seq<char>>;

/// `UnicodeSegmentation::unicode_words`: the words of `s`, in order.
///
/// Trusted: the words are what `unicode_words_of` names.
#[verifier::external_body]
fn unicode_words(s: &str) -> (r: Vec<String>)
    ensures
        r@.map_values(|w: String| w@) == unicode_words_of(s@),
{
    s.unicode_words().map(|w| w.to_owned()).collect()
}

/// What the flags `fl` of a dictionary word ask for, given what each flag
/// stands for: whether the word is forbidden, whether it is not to be
/// suggested, whether the stem itself is a word, and the prefix and suffix
/// rules to apply, in the order of the flags. Flags that stand for nothing
/// are passed over.
pub struct FlagUse {
    pub forbid: bool,
    pub nosuggest: bool,
    pub add_stem: bool,
    pub prefixes: Seq<RuleView>,
    pub suffixes: Seq<RuleView>,
}

/// What the flags `fl` ask for.
pub open spec fn flag_use(fm: Map<u32, FlagEntry>, fl: Seq<u32>) -> FlagUse
    decreases fl.len(),
{
    if fl.len() == 0 {
        FlagUse { forbid: false, nosuggest: false, add_stem: true, prefixes: Seq::empty(), suffixes: Seq::empty() }
    } else {
        let u = flag_use(fm, fl.drop_last());
        let f = fl.last();
        if !fm.contains_key(f) {
            u
        } else {
            match fm[f] {
                FlagEntry::Special(FlagValue::ForbiddenWord) => FlagUse { forbid: true, ..u },
                FlagEntry::Special(FlagValue::NoSuggest) => FlagUse { nosuggest: true, ..u },
                FlagEntry::Special(FlagValue::AfxNeeded) => FlagUse { add_stem: false, ..u },
                FlagEntry::Rule(kind, combine, ps) => if kind == RuleType::Prefix {
                    FlagUse { prefixes: u.prefixes.push((kind, combine, ps)), ..u }
                } else {
                    FlagUse { suffixes: u.suffixes.push((kind, combine, ps)), ..u }
                },
                _ => u,
            }
        }
    }
}

/// The meta of a stem read from a dictionary file.
pub open spec fn dict_meta(stem: Seq<char>) -> MetaView {
    (stem, SourceView::Dict(Seq::empty()))
}

/// `m` with the stem (unless the flags ask for an affix) and the words that
/// the rules of `u` make of `stem`.
pub open spec fn with_stem_words(m: WordMap, stem: Seq<char>, u: FlagUse) -> WordMap {
    let m1 = if u.add_stem {
        add_meta(m, stem, dict_meta(stem))
    } else {
        m
    };
    affixed_word_map(m1, stem, stem, u.prefixes, u.suffixes).0
}

/// `d` after adding the stem `stem` with the flags `fl`: its words go to the
/// forbidden list if a flag forbids them, else to the no-suggest list if a
/// flag asks for that, else to the main list.
pub open spec fn with_word(d: DictView, stem: Seq<char>, fl: Seq<u32>) -> DictView {
    let u = flag_use(d.flags, fl);
    if u.forbid {
        DictView { forbidden: with_stem_words(d.forbidden, stem, u), ..d }
    } else if u.nosuggest {
        DictView { nosuggest: with_stem_words(d.nosuggest, stem, u), ..d }
    } else {
        DictView { wordlist: with_stem_words(d.wordlist, stem, u), ..d }
    }
}

/// `d` after adding the entries `es` of a dictionary file in turn.
pub open spec fn with_words(d: DictView, es: Seq<DictEntryView>) -> DictView
    decreases es.len(),
{
    if es.len() == 0 {
        d
    } else {
        let prev = with_words(d, es.drop_last());
        with_word(prev, es.last().0, es.last().1)
    }
}

/// The meta of a word of the personal dictionary.
pub open spec fn personal_meta(e: PersonalView) -> MetaView {
    (e.0, SourceView::Personal(None, e.2))
}

/// `d` after adding the personal entry `e`: to the forbidden list if it is
/// marked so, else to the main list.
pub open spec fn with_personal(d: DictView, e: PersonalView) -> DictView {
    if e.3 {
        DictView { forbidden: add_meta(d.forbidden, e.0, personal_meta(e)), ..d }
    } else {
        DictView { wordlist: add_meta(d.wordlist, e.0, personal_meta(e)), ..d }
    }
}

/// `d` after adding the personal entries `es` in turn.
pub open spec fn with_personals(d: DictView, es: Seq<PersonalView>) -> DictView
    decreases es.len(),
{
    if es.len() == 0 {
        d
    } else {
        with_personal(with_personals(d, es.drop_last()), es.last())
    }
}

/// Whether no personal entry of `es` names a friend.
pub open spec fn friendless(es: Seq<PersonalView>) -> bool {
    forall|i: int| 0 <= i < es.len() ==> (#[trigger] es[i]).1 is None
}

/// An empty dictionary with the flags `flags` of type `ft`.
pub open spec fn empty_dict(flags: Map<u32, FlagEntry>, ft: FlagType) -> DictView {
    DictView {
        wordlist: Map::empty(),
        nosuggest: Map::empty(),
        forbidden: Map::empty(),
        flags,
        flag_type: ft,
    }
}

impl Dictionary {
    /// An empty dictionary with the configuration `cfg`.
    pub fn new(cfg: ParsedCfg) -> (r: Result<Dictionary, Error>)
        ensures
            match crate::affix::compiled_flags(cfg@) {
                Ok(m) => r matches Ok(d) && d@ == empty_dict(m, cfg@.flag_type),
                Err(_) => r is Err,
            },
    {
        let flags = match cfg.compile_flags() {
            Ok(f) => f,
            Err(e) => {
                return Err(e);
            },
        };
        let flag_type = cfg.flag_type();
        let d = Dictionary {
            wordlist: WordList::new(),
            wordlist_nosuggest: WordList::new(),
            wordlist_forbidden: WordList::new(),
            flags,
            flag_type,
            parsed_config: Box::new(cfg),
        };
        proof {
            assert(d@.wordlist =~= Map::<Seq<char>, Seq<MetaView>>::empty());
            assert(d@.nosuggest =~= Map::<Seq<char>, Seq<MetaView>>::empty());
            assert(d@.forbidden =~= Map::<Seq<char>, Seq<MetaView>>::empty());
        }
        Ok(d)
    }

    /// Check that a single word is spelled correctly: it is not forbidden,
    /// and it or its lowercase form is in the main or the no-suggest list.
    pub fn check_word(&self, word: &str) -> (r: bool)
        ensures
            r == accepts(self@, word@),
    {
        let lower = to_lowercase(word);
        (!self.wordlist_forbidden.contains_key(word)) && (self.wordlist.contains_key(word)
            || self.wordlist.contains_key(lower.as_str()) || self.wordlist_nosuggest.contains_key(word)
            || self.wordlist_nosuggest.contains_key(lower.as_str()))
    }

    /// Whether every word of `words` is spelled correctly.
    pub fn check_words(&self, words: &Vec<String>) -> (r: bool)
        ensures
            r == forall|i: int| 0 <= i < words@.len() ==> accepts(self@, #[trigger] words@[i]@),
    {
        let mut i: usize = 0;
        while i < words.len()
            invariant
                i <= words@.len(),
                forall|k: int| 0 <= k < i ==> accepts(self@, #[trigger] words@[k]@),
            decreases words@.len() - i,
        {
            if !self.check_word(words[i].as_str()) {
                return false;
            }
            i += 1;
        }
        true
    }

    /// Check that a text holds only words that are spelled correctly.
    pub fn check(&self, input: &str) -> (r: bool)
        ensures
            r == forall|i: int| 0 <= i < unicode_words_of(input@).len() ==> accepts(
                self@,
                #[trigger] unicode_words_of(input@)[i],
            ),
    {
        let words = unicode_words(input);
        let r = self.check_words(&words);
        proof {
            let ws = unicode_words_of(input@);
            assert(ws.len() == words@.len());
            assert forall|i: int| 0 <= i < ws.len() implies ws[i] == words@[i]@ by {
                assert(words@.map_values(|w: String| w@)[i] == words@[i]@);
            }
            if r {
                assert forall|i: int| 0 <= i < ws.len() implies accepts(self@, #[trigger] ws[i]) by {
                    assert(accepts(self@, words@[i]@));
                }
            } else {
                let k = choose|k: int| 0 <= k < words@.len() && !accepts(self@, #[trigger] words@[k]@);
                assert(!accepts(self@, ws[k]));
            }
        }
        r
    }

    /// The words of `words` that are not spelled correctly, in order.
    pub fn reject_words(&self, words: &Vec<String>) -> (r: Vec<String>)
        ensures
            r@.map_values(|w: String| w@) == unaccepted(self@, words@.map_values(|w: String| w@)),
    {
        let ghost ws = words@.map_values(|w: String| w@);
        let mut out: Vec<String> = Vec::new();
        let mut i: usize = 0;
        proof {
            assert(ws.take(0) =~= Seq::<Seq<char>>::empty());
            assert(out@.map_values(|w: String| w@) =~= Seq::<Seq<char>>::empty());
        }
        while i < words.len()
            invariant
                i <= words@.len(),
                ws == words@.map_values(|w: String| w@),
                out@.map_values(|w: String| w@) == unaccepted(self@, ws.take(i as int)),
            decreases words@.len() - i,
        {
            proof {
                assert(ws.take(i + 1).drop_last() =~= ws.take(i as int));
                assert(ws.take(i + 1).last() == words@[i as int]@);
            }
            if !self.check_word(words[i].as_str()) {
                let ghost before = out@;
                out.push(words[i].clone());
                proof {
                    assert(out@.map_values(|w: String| w@) =~= before.map_values(|w: String| w@).push(
                        words@[i as int]@,
                    ));
                }
            }
            i += 1;
        }
        proof {
            assert(ws.take(i as int) =~= ws);
        }
        out
    }

    /// The words of a text that are not spelled correctly, in order.
    pub fn check_returning_list(&self, input: &str) -> (r: Vec<String>)
        ensures
            r@.map_values(|w: String| w@) == unaccepted(self@, unicode_words_of(input@)),
    {
        let words = unicode_words(input);
        self.reject_words(&words)
    }

    /// The pieces of `pieces` whose words are not spelled correctly, in
    /// order.
    pub fn check_pieces(&self, pieces: &Vec<(usize, String)>) -> (r: Vec<(usize, String)>)
        ensures
            pieces_view(r@) == rejected(self@, pieces_view(pieces@)),
    {
        let ghost ps = pieces_view(pieces@);
        let mut out: Vec<(usize, String)> = Vec::new();
        let mut i: usize = 0;
        proof {
            assert(ps.take(0) =~= Seq::<Piece>::empty());
            assert(pieces_view(out@) =~= Seq::<Piece>::empty());
        }
        while i < pieces.len()
            invariant
                i <= pieces@.len(),
                ps == pieces_view(pieces@),
                pieces_view(out@) == rejected(self@, ps.take(i as int)),
            decreases pieces@.len() - i,
        {
            proof {
                assert(ps.take(i + 1).drop_last() =~= ps.take(i as int));
                assert(ps.take(i + 1).last() == ps[i as int]);
                assert(ps[i as int] == (pieces@[i as int].0, pieces@[i as int].1@));
            }
            let (idx, w) = &pieces[i];
            if !self.check_word(w.as_str()) {
                let ghost before = out@;
                out.push((*idx, w.clone()));
                proof {
                    assert(pieces_view(out@) =~= pieces_view(before).push(ps[i as int]));
                }
            }
            i += 1;
        }
        proof {
            assert(ps.take(i as int) =~= ps);
        }
        out
    }

    /// The words of a text that are not spelled correctly, each with its
    /// byte offset: the pieces between the word boundaries of `input` that
    /// are made of alphanumeric characters and hyphens alone, and whose word
    /// is not accepted.
    pub fn check_indices(&self, input: &str) -> (r: Vec<(usize, String)>)
        ensures
            pieces_view(r@) == rejected(self@, word_pieces(word_bounds_of(input@))),
    {
        let pieces = word_splitter(input);
        self.check_pieces(&pieces)
    }

    /// The main word list.
    pub fn wordlist(&self) -> (r: &WordList)
        ensures
            r.contents() == self@.wordlist,
    {
        &self.wordlist
    }

    /// The list of words to accept but never suggest.
    pub fn wordlist_nosuggest(&self) -> (r: &WordList)
        ensures
            r.contents() == self@.nosuggest,
    {
        &self.wordlist_nosuggest
    }

    /// The list of words that are never accepted.
    pub fn wordlist_forbidden(&self) -> (r: &WordList)
        ensures
            r.contents() == self@.forbidden,
    {
        &self.wordlist_forbidden
    }
}

/// Add the stem (if `add_stem`) and the words that the rules make of it to
/// `dest`.
fn add_stem_words(
    dest: &mut WordList,
    stem: &str,
    stem_rc: &Arc<String>,
    add_stem: bool,
    prefix_rules: &Vec<Arc<AfxRule>>,
    suffix_rules: &Vec<Arc<AfxRule>>,
)
    requires
        stem_rc@ == stem@,
    ensures
        final(dest).contents() == with_stem_words(
            old(dest).contents(),
            stem@,
            FlagUse {
                forbid: false,
                nosuggest: false,
                add_stem,
                prefixes: rules_view(prefix_rules@),
                suffixes: rules_view(suffix_rules@),
            },
        ),
{
    if add_stem {
        let morphs: Vec<MorphInfo> = Vec::new();
        proof {
            assert(morphs_view(morphs@) =~= Seq::<MorphView>::empty());
        }
        dest.add_meta(stem, Meta::new(clone_arc(stem_rc), Source::Dict(morphs)));
    }
    let _ = create_affixed_word_map(prefix_rules, suffix_rules, stem, stem_rc, dest);
}

impl Dictionary {
    /// Add the stem `stem` with the flags `flags`: the stem itself, unless a
    /// flag asks for an affix, and every word that its affix rules make of
    /// it. The words go to the forbidden list if a flag forbids them, else
    /// to the no-suggest list if a flag asks for that, else to the main
    /// list. Flags that stand for nothing are passed over.
    fn create_affixed_words(&mut self, stem: &str, flags: &[u32], _morph: &[MorphInfo])
        ensures
            final(self)@ == with_word(old(self)@, stem@, flags@),
    {
        let mut prefix_rules: Vec<Arc<AfxRule>> = Vec::new();
        let mut suffix_rules: Vec<Arc<AfxRule>> = Vec::new();
        let stem_rc = Arc::new(stem.to_owned());
        let mut add_stem = true;
        let mut forbid = false;
        let mut nosuggest = false;
        let ghost fm = self@.flags;
        let mut i: usize = 0;
        proof {
            assert(flags@.take(0) =~= Seq::<u32>::empty());
            assert(rules_view(prefix_rules@) =~= Seq::<RuleView>::empty());
            assert(rules_view(suffix_rules@) =~= Seq::<RuleView>::empty());
        }
        while i < flags.len()
            invariant
                i <= flags@.len(),
                fm == self@.flags,
                fm == entries_view(self.flags@),
                flag_use(fm, flags@.take(i as int)) == (FlagUse {
                    forbid,
                    nosuggest,
                    add_stem,
                    prefixes: rules_view(prefix_rules@),
                    suffixes: rules_view(suffix_rules@),
                }),
            decreases flags@.len() - i,
        {
            let flag = flags[i];
            proof {
                assert(flags@.take(i + 1).drop_last() =~= flags@.take(i as int));
                assert(flags@.take(i + 1).last() == flag);
            }
            match self.flags.get(&flag) {
                None => {},
                Some(v) => {
                    proof {
                        assert(fm.contains_key(flag) && fm[flag] == flag_entry(*v));
                    }
                    match v {
                        FlagValue::ForbiddenWord => {
                            forbid = true;
                        },
                        FlagValue::NoSuggest => {
                            nosuggest = true;
                        },
                        FlagValue::AfxNeeded => {
                            add_stem = false;
                        },
                        FlagValue::Rule(rule) => {
                            if rule.is_pfx() {
                                let ghost before = prefix_rules@;
                                prefix_rules.push(clone_arc(rule));
                                proof {
                                    assert(rules_view(prefix_rules@) =~= rules_view(before).push(
                                        helpers::rule_view(**rule),
                                    ));
                                }
                            } else {
                                let ghost before = suffix_rules@;
                                suffix_rules.push(clone_arc(rule));
                                proof {
                                    assert(rules_view(suffix_rules@) =~= rules_view(before).push(
                                        helpers::rule_view(**rule),
                                    ));
                                }
                            }
                        },
                        _ => {},
                    }
                },
            }
            i += 1;
        }
        proof {
            assert(flags@.take(i as int) =~= flags@);
        }
        if forbid {
            add_stem_words(&mut self.wordlist_forbidden, stem, &stem_rc, add_stem, &prefix_rules, &suffix_rules);
        } else if nosuggest {
            add_stem_words(&mut self.wordlist_nosuggest, stem, &stem_rc, add_stem, &prefix_rules, &suffix_rules);
        } else {
            add_stem_words(&mut self.wordlist, stem, &stem_rc, add_stem, &prefix_rules, &suffix_rules);
        }
    }

    /// Add the entries of a dictionary file in turn.
    fn update_wordlist(&mut self, entries: &Vec<DictEntry>) -> (r: Result<(), Error>)
        ensures
            r is Ok,
            final(self)@ == with_words(old(self)@, self::parser::entries_view(entries@)),
    {
        let ghost es = self::parser::entries_view(entries@);
        let mut i: usize = 0;
        proof {
            assert(es.take(0) =~= Seq::<DictEntryView>::empty());
        }
        while i < entries.len()
            invariant
                i <= entries@.len(),
                es == self::parser::entries_view(entries@),
                self@ == with_words(old(self)@, es.take(i as int)),
            decreases entries@.len() - i,
        {
            let entry = &entries[i];
            proof {
                assert(es.take(i + 1).drop_last() =~= es.take(i as int));
                assert(es.take(i + 1).last() == es[i as int]);
                assert(es[i as int] == entry@);
            }
            let stem = entry.stem();
            let flags = entry.flags();
            let morph = entry.morph();
            self.create_affixed_words(stem, flags.as_slice(), morph.as_slice());
            i += 1;
        }
        proof {
            assert(es.take(i as int) =~= es);
        }
        Ok(())
    }

    /// Read a dictionary file and add its entries.
    pub fn parse_update_wordlist(&mut self, source: &str) -> (r: Result<(), Error>)
        requires
            source@.len() < u32::MAX,
        ensures
            regex_compiles(RE_DICT_LINE@) ==> match dict_entries(old(self)@.flag_type, dict_body(source@)) {
                Some(es) => r is Ok && final(self)@ == with_words(old(self)@, es),
                None => r is Err,
            },
    {
        match parse_dict(source, self.flag_type) {
            Ok(entries) => self.update_wordlist(&entries),
            Err(e) => Err(Error::Parse(e)),
        }
    }

    /// Add the entries of a personal dictionary in turn: to the forbidden
    /// list those marked so, to the main list the others.
    fn update_personal(&mut self, entries: &Vec<PersonalEntry>, dict: &[DictEntry]) -> (r: Result<(), Error>)
        requires
            friendless(entries@.map_values(|e: PersonalEntry| e@)),
        ensures
            r is Ok,
            final(self)@ == with_personals(old(self)@, entries@.map_values(|e: PersonalEntry| e@)),
    {
        let ghost es = entries@.map_values(|e: PersonalEntry| e@);
        let mut i: usize = 0;
        proof {
            assert(es.take(0) =~= Seq::<PersonalView>::empty());
        }
        while i < entries.len()
            invariant
                i <= entries@.len(),
                es == entries@.map_values(|e: PersonalEntry| e@),
                friendless(es),
                self@ == with_personals(old(self)@, es.take(i as int)),
            decreases entries@.len() - i,
        {
            let entry = &entries[i];
            proof {
                assert(es.take(i + 1).drop_last() =~= es.take(i as int));
                assert(es.take(i + 1).last() == es[i as int]);
                assert(es[i as int] == entry@);
                assert(es[i as int].1 is None);
            }
            let stem_arc = Arc::new(entry.stem.clone());
            let source = Source::Personal(ParsedPersonalMeta::new(None, clone_morphs(&entry.morph)));
            let meta = Meta::new(stem_arc, source);
            if entry.forbid {
                self.wordlist_forbidden.add_meta(entry.stem.as_str(), meta);
            } else {
                self.wordlist.add_meta(entry.stem.as_str(), meta);
            }
            i += 1;
        }
        proof {
            assert(es.take(i as int) =~= es);
        }
        Ok(())
    }

    /// Free the room that the word lists do not use.
    fn shrink_storage(&mut self)
        ensures
            final(self)@ == old(self)@,
    {
        self.wordlist.shrink();
        self.wordlist_nosuggest.shrink();
        self.wordlist_forbidden.shrink();
    }
}

/// The settings that the affix file `s` gives, if it reads.
pub open spec fn config_of(s: Seq<char>) -> Option<CfgView> {
    match parse_from(s, 0, 0) {
        Parsed::Done(ns) => match cfg_of(ns) {
            Ok(c) => Some(c),
            Err(_) => None,
        },
        Parsed::Failed(_, _) => None,
    }
}

/// The dictionary built from the settings `c`, the dictionary file `dict`
/// and the personal dictionary `personal`, if the flags compile and the
/// files read: an empty dictionary with the flags of `c`, to which the
/// entries of `dict`, then those of `personal`, are added in turn.
pub open spec fn dict_from(c: CfgView, dict: Option<Seq<char>>, personal: Option<Seq<char>>) -> Option<
    DictView,
> {
    match compiled_flags(c) {
        Err(_) => None,
        Ok(m) => {
            let d0 = empty_dict(m, c.flag_type);
            let d1 = match dict {
                None => Some(d0),
                Some(s) => match dict_entries(c.flag_type, dict_body(s)) {
                    Some(es) => Some(with_words(d0, es)),
                    None => None,
                },
            };
            match d1 {
                None => None,
                Some(d) => match personal {
                    None => Some(d),
                    Some(p) => match personal_entries(lines_of(p)) {
                        Some(es) => Some(with_personals(d, es)),
                        None => None,
                    },
                },
            }
        },
    }
}

/// Whether no entry that the personal dictionary `s` gives names a friend.
pub open spec fn personal_friendless(s: Seq<char>) -> bool {
    match personal_entries(lines_of(s)) {
        Some(es) => friendless(es),
        None => true,
    }
}

/// A builder used to create a [`Dictionary`].
#[derive(Debug)]
pub struct DictBuilder<'a> {
    cfg: Option<ParsedCfg>,
    cfg_src: Option<&'a str>,
    dict_src: Option<&'a str>,
    personal_src: Option<&'a str>,
}

impl<'a> DictBuilder<'a> {
    /// The settings given as a value, if any.
    pub closed spec fn spec_cfg(&self) -> Option<CfgView> {
        match self.cfg {
            Some(c) => Some(c@),
            None => None,
        }
    }

    /// The affix file, if any.
    pub closed spec fn spec_cfg_src(&self) -> Option<Seq<char>> {
        match self.cfg_src {
            Some(s) => Some(s@),
            None => None,
        }
    }

    /// The dictionary file, if any.
    pub closed spec fn spec_dict_src(&self) -> Option<Seq<char>> {
        match self.dict_src {
            Some(s) => Some(s@),
            None => None,
        }
    }

    /// The personal dictionary, if any.
    pub closed spec fn spec_personal_src(&self) -> Option<Seq<char>> {
        match self.personal_src {
            Some(s) => Some(s@),
            None => None,
        }
    }

    /// Whether the sources fit the limits of the parsers.
    pub open spec fn sizes_ok(&self) -> bool {
        &&& (self.spec_cfg_src() matches Some(s) ==> s.len() + 0x20000 < u32::MAX)
        &&& (self.spec_dict_src() matches Some(s) ==> s.len() < u32::MAX)
        &&& (self.spec_personal_src() matches Some(s) ==> s.len() < u32::MAX)
    }

    /// Whether `r` is what [`DictBuilder::build`] gives: an error where the
    /// settings are given twice or not at all; else, where the line
    /// expressions of the dictionary files compile, the dictionary that the
    /// settings and files give, or an error where they give none.
    pub open spec fn built_as(&self, r: Result<Dictionary, Error>) -> bool {
        &&& (self.spec_cfg() is Some && self.spec_cfg_src() is Some ==> (r matches Err(
            Error::Build(BuildError::BuilderCfgSpecTwice),
        )))
        &&& (self.spec_cfg() is None && self.spec_cfg_src() is None ==> (r matches Err(
            Error::Build(BuildError::BuilderCfgUnspecified),
        )))
        &&& {
            let c = match self.spec_cfg() {
                Some(c) => Some(c),
                None => match self.spec_cfg_src() {
                    Some(s) => config_of(s),
                    None => None,
                },
            };
            self.spec_cfg() is None || self.spec_cfg_src() is None ==> (regex_compiles(RE_DICT_LINE@)
                && regex_compiles(RE_PERSONAL_LINE@) ==> match c {
                None => r is Err,
                Some(cv) => match dict_from(cv, self.spec_dict_src(), self.spec_personal_src()) {
                    Some(d) => r matches Ok(x) && x@ == d,
                    None => r is Err,
                },
            })
        }
    }

    /// A builder with nothing set.
    pub fn new() -> (r: DictBuilder<'a>)
        ensures
            r.spec_cfg() is None,
            r.spec_cfg_src() is None,
            r.spec_dict_src() is None,
            r.spec_personal_src() is None,
    {
        DictBuilder { cfg: None, cfg_src: None, dict_src: None, personal_src: None }
    }

    /// Read the affix file from `config`.
    pub fn config_str(self, config: &'a str) -> (r: DictBuilder<'a>)
        ensures
            r.spec_cfg() == self.spec_cfg(),
            r.spec_cfg_src() == Some(config@),
            r.spec_dict_src() == self.spec_dict_src(),
            r.spec_personal_src() == self.spec_personal_src(),
    {
        DictBuilder { cfg_src: Some(config), ..self }
    }

    /// Use the settings `cfg` in place of an affix file.
    fn config(self, cfg: ParsedCfg) -> (r: DictBuilder<'a>)
        ensures
            r.spec_cfg() == Some(cfg@),
            r.spec_cfg_src() == self.spec_cfg_src(),
            r.spec_dict_src() == self.spec_dict_src(),
            r.spec_personal_src() == self.spec_personal_src(),
    {
        DictBuilder { cfg: Some(cfg), ..self }
    }

    /// Read the dictionary file from `dict`.
    pub fn dict_str(self, dict: &'a str) -> (r: DictBuilder<'a>)
        ensures
            r.spec_cfg() == self.spec_cfg(),
            r.spec_cfg_src() == self.spec_cfg_src(),
            r.spec_dict_src() == Some(dict@),
            r.spec_personal_src() == self.spec_personal_src(),
    {
        DictBuilder { dict_src: Some(dict), ..self }
    }

    /// Read a personal dictionary from `personal`.
    pub fn personal_str(self, personal: &'a str) -> (r: DictBuilder<'a>)
        ensures
            r.spec_cfg() == self.spec_cfg(),
            r.spec_cfg_src() == self.spec_cfg_src(),
            r.spec_dict_src() == self.spec_dict_src(),
            r.spec_personal_src() == Some(personal@),
    {
        DictBuilder { personal_src: Some(personal), ..self }
    }

    /// Build the dictionary: the settings (given, or read from the affix
    /// file), then the entries of the dictionary file, then those of the
    /// personal dictionary. Settings given twice, or not at all, are an
    /// error, as is a file that does not read or flags that do not compile.
    pub fn build(self) -> (r: Result<Dictionary, Error>)
        requires
            self.sizes_ok(),
            regex_compiles(RE_PERSONAL_LINE@) ==> (self.spec_personal_src() matches Some(p)
                ==> personal_friendless(p)),
        ensures
            self.built_as(r),
    {
        if self.cfg.is_some() && self.cfg_src.is_some() {
            return Err(Error::Build(BuildError::BuilderCfgSpecTwice));
        }
        let ghost this = self;
        let cfg = match self.cfg {
            Some(c) => c,
            None => match self.cfg_src {
                Some(cs) => match ParsedCfg::load_from_str(cs) {
                    Ok(c) => c,
                    Err(e) => {
                        return Err(e);
                    },
                },
                None => {
                    return Err(Error::Build(BuildError::BuilderCfgUnspecified));
                },
            },
        };
        let ghost cv = cfg@;
        let mut dict = match Dictionary::new(cfg) {
            Ok(d) => d,
            Err(e) => {
                return Err(e);
            },
        };
        match self.dict_src {
            Some(wl) => {
                match dict.parse_update_wordlist(wl) {
                    Ok(()) => {},
                    Err(e) => {
                        return Err(e);
                    },
                }
            },
            None => {},
        }
        match self.personal_src {
            Some(wl) => {
                match dict.parse_update_personal(wl, &[]) {
                    Ok(()) => {},
                    Err(e) => {
                        return Err(e);
                    },
                }
            },
            None => {},
        }
        dict.shrink_storage();
        Ok(dict)
    }
}

impl<'a> DictBuilder<'a> {
    /// Build the dictionary as [`DictBuilder::build`] does, where it can be
    /// called: `None` where a source is too long for the parsers, or where
    /// the personal dictionary holds an entry that names a friend (words
    /// with a friend are not supported).
    pub fn try_build(self) -> (r: Option<Result<Dictionary, Error>>)
        ensures
            match r {
                Some(res) => self.built_as(res),
                None => !self.sizes_ok() || (regex_compiles(RE_PERSONAL_LINE@) && (
                self.spec_personal_src() matches Some(p) && !personal_friendless(p))),
            },
    {
        match self.cfg_src {
            Some(s) => {
                if crate::text::chars_of(s).len() >= 0xfffd_ffff {
                    return None;
                }
            },
            None => {},
        }
        match self.dict_src {
            Some(s) => {
                if crate::text::chars_of(s).len() >= 0xffff_ffff {
                    return None;
                }
            },
            None => {},
        }
        match self.personal_src {
            Some(s) => {
                if crate::text::chars_of(s).len() >= 0xffff_ffff {
                    return None;
                }
                match parse_personal_dict(s) {
                    Ok(v) => {
                        if !entries_friendless(&v) {
                            return None;
                        }
                    },
                    Err(_) => {},
                }
            },
            None => {},
        }
        Some(self.build())
    }
}

impl Dictionary {
    /// Read a personal dictionary and add its entries.
    pub fn parse_update_personal(&mut self, source: &str, dict: &[DictEntry]) -> (r: Result<(), Error>)
        requires
            source@.len() < u32::MAX,
            regex_compiles(RE_PERSONAL_LINE@) ==> personal_friendless(source@),
        ensures
            regex_compiles(RE_PERSONAL_LINE@) ==> match personal_entries(lines_of(source@)) {
                Some(es) => r is Ok && final(self)@ == with_personals(old(self)@, es),
                None => r is Err,
            },
    {
        match parse_personal_dict(source) {
            Ok(entries) => {
                proof {
                    if entries@.len() == 0 {
                        assert(entries@.map_values(|e: PersonalEntry| e@).len() == 0);
                    }
                }
                self.update_personal(&entries, dict)
            },
            Err(e) => Err(Error::Parse(e)),
        }
    }
}

/// Whether no entry names a friend.
fn entries_friendless(entries: &Vec<PersonalEntry>) -> (r: bool)
    ensures
        r == friendless(entries@.map_values(|e: PersonalEntry| e@)),
{
    let ghost es = entries@.map_values(|e: PersonalEntry| e@);
    let mut i: usize = 0;
    while i < entries.len()
        invariant
            i <= entries@.len(),
            es == entries@.map_values(|e: PersonalEntry| e@),
            forall|k: int| 0 <= k < i ==> (#[trigger] es[k]).1 is None,
        decreases entries@.len() - i,
    {
        proof {
            assert(es[i as int] == entries@[i as int]@);
        }
        if entries[i].friend.is_some() {
            return false;
        }
        i += 1;
    }
    true
}

/// The morphs that a source carries.
pub open spec fn source_morphs(s: SourceView) -> Seq<MorphView> {
    match s {
        SourceView::Dict(m) => m,
        SourceView::Personal(_, m) => m,
        _ => Seq::empty(),
    }
}

/// The morphs that the metas `ms` carry, in order.
pub open spec fn metas_morphs(ms: Seq<MetaView>) -> Seq<MorphView>
    decreases ms.len(),
{
    if ms.len() == 0 {
        Seq::empty()
    } else {
        metas_morphs(ms.drop_last()) + source_morphs(ms.last().1)
    }
}

/// The stems that the morphs `ms` name, in order.
pub open spec fn morph_stems(ms: Seq<MorphView>) -> Seq<Seq<char>>
    decreases ms.len(),
{
    if ms.len() == 0 {
        Seq::empty()
    } else {
        match ms.last() {
            MorphView::Stem(s) => morph_stems(ms.drop_last()).push(s),
            _ => morph_stems(ms.drop_last()),
        }
    }
}

/// The stems of a word with the metas `ms`: the stem of each meta, then
/// each stem that their morphs name.
pub open spec fn word_stems(ms: Seq<MetaView>) -> Seq<Seq<char>> {
    ms.map_values(|m: MetaView| m.0) + morph_stems(metas_morphs(ms))
}

/// The metas of `w` in the main list of `d`, else in its no-suggest list.
pub open spec fn found_metas(d: DictView, w: Seq<char>) -> Option<Seq<MetaView>> {
    if d.wordlist.contains_key(w) {
        Some(d.wordlist[w])
    } else if d.nosuggest.contains_key(w) {
        Some(d.nosuggest[w])
    } else {
        None
    }
}

/// The morphs that `source` carries.
fn source_morph_list(source: &Source) -> (r: Vec<MorphInfo>)
    ensures
        morphs_view(r@) == source_morphs(source@),
{
    match source {
        Source::Dict(m) => clone_morphs(m),
        Source::Personal(p) => clone_morphs(p.morph()),
        _ => {
            let v: Vec<MorphInfo> = Vec::new();
            proof {
                assert(morphs_view(v@) =~= source_morphs(source@));
            }
            v
        },
    }
}

impl Dictionary {
    /// The stems of a word of the main or the no-suggest list: the stem of
    /// each of its metas, then each stem that their morphs name.
    pub fn stem_word(&self, word: &str) -> (r: Result<Vec<String>, WordNotFoundError>)
        ensures
            match found_metas(self@, word@) {
                Some(ms) => r matches Ok(v) && v@.map_values(|x: String| x@) == word_stems(ms),
                None => r is Err,
            },
    {
        let meta = match self.wordlist.get(word) {
            Some(m) => m,
            None => match self.wordlist_nosuggest.get(word) {
                Some(m) => m,
                None => {
                    return Err(WordNotFoundError);
                },
            },
        };
        let ghost ms = metas_view(meta@);
        let mut stems: Vec<String> = Vec::new();
        let mut morphs: Vec<MorphInfo> = Vec::new();
        let mut i: usize = 0;
        proof {
            assert(ms.take(0) =~= Seq::<MetaView>::empty());
            assert(stems@.map_values(|x: String| x@) =~= Seq::<Seq<char>>::empty());
            assert(morphs_view(morphs@) =~= Seq::<MorphView>::empty());
        }
        while i < meta.len()
            invariant
                i <= meta@.len(),
                ms == metas_view(meta@),
                stems@.map_values(|x: String| x@) == ms.take(i as int).map_values(|m: MetaView| m.0),
                morphs_view(morphs@) == metas_morphs(ms.take(i as int)),
            decreases meta@.len() - i,
        {
            let item = &meta[i];
            proof {
                assert(ms.take(i + 1).drop_last() =~= ms.take(i as int));
                assert(ms.take(i + 1).last() == ms[i as int]);
                assert(ms[i as int] == item@);
            }
            let ghost before_s = stems@;
            stems.push(item.stem().to_owned());
            proof {
                assert(stems@.map_values(|x: String| x@) =~= before_s.map_values(|x: String| x@).push(item@.0));
                assert(ms.take(i + 1).map_values(|m: MetaView| m.0) =~= ms.take(i as int).map_values(
                    |m: MetaView| m.0,
                ).push(item@.0));
            }
            let extra = source_morph_list(item.source());
            let mut j: usize = 0;
            let ghost before_m = morphs_view(morphs@);
            proof {
                assert(extra@.take(0) =~= Seq::<MorphInfo>::empty());
                assert(before_m + morphs_view(extra@.take(0)) =~= before_m);
            }
            while j < extra.len()
                invariant
                    j <= extra@.len(),
                    morphs_view(morphs@) == before_m + morphs_view(extra@.take(j as int)),
                decreases extra@.len() - j,
            {
                let ghost bm = morphs@;
                let m = extra[j].clone();
                morphs.push(m);
                proof {
                    assert(extra@.take(j + 1) =~= extra@.take(j as int).push(extra@[j as int]));
                    assert(morphs_view(morphs@) =~= morphs_view(bm).push(m@));
                    assert(morphs_view(extra@.take(j + 1)) =~= morphs_view(extra@.take(j as int)).push(
                        extra@[j as int]@,
                    ));
                    assert(morphs_view(morphs@) =~= before_m + morphs_view(extra@.take(j + 1)));
                }
                j += 1;
            }
            proof {
                assert(extra@.take(j as int) =~= extra@);
                assert(morphs_view(extra@) == source_morphs(item@.1));
            }
            i += 1;
        }
        proof {
            assert(ms.take(i as int) =~= ms);
        }
        let ghost all = metas_morphs(ms);
        let ghost base = stems@.map_values(|x: String| x@);
        let mut k: usize = 0;
        proof {
            assert(all.take(0) =~= Seq::<MorphView>::empty());
            assert(base + morph_stems(all.take(0)) =~= base);
        }
        while k < morphs.len()
            invariant
                k <= morphs@.len(),
                morphs_view(morphs@) == all,
                stems@.map_values(|x: String| x@) == base + morph_stems(all.take(k as int)),
            decreases morphs@.len() - k,
        {
            proof {
                assert(all.take(k + 1).drop_last() =~= all.take(k as int));
                assert(all.take(k + 1).last() == morphs@[k as int]@);
            }
            match &morphs[k] {
                MorphInfo::Stem(s) => {
                    let ghost bs = stems@;
                    stems.push(s.clone());
                    proof {
                        assert(stems@.map_values(|x: String| x@) =~= bs.map_values(|x: String| x@).push(s@));
                    }
                },
                _ => {},
            }
            k += 1;
        }
        proof {
            assert(all.take(k as int) =~= all);
        }
        Ok(stems)
    }
}

/// The edit distance between the grapheme clusters of `a` and `b`.
pub open spec fn word_distance(a: Seq<char>, b: Seq<char>) -> nat {
    weighted_distance(spec_graphemes(a), spec_graphemes(b), seq_eq(), 1, 1, 1)
}

/// Whether `v` is a list of suggestions for `word` from the main list of
/// `d`: words of the list, each once, within distance 1 of `word`, those at
/// distance 0 first; at most 10 of them, and every such word of the list
/// where there are fewer than 10.
pub open spec fn suggestions_for(d: DictView, word: Seq<char>, v: Seq<Seq<char>>) -> bool {
    &&& v.len() <= 10
    &&& forall|i: int| 0 <= i < v.len() ==> d.wordlist.contains_key(#[trigger] v[i]) && word_distance(v[i], word) <= 1
    &&& forall|i: int, j: int| 0 <= i < j < v.len() ==> v[i] != v[j]
    &&& forall|i: int, j: int| 0 <= i < j < v.len() ==> word_distance(#[trigger] v[i], word) <= word_distance(#[trigger] v[j], word)
    &&& (v.len() < 10 ==> forall|k: Seq<char>| d.wordlist.contains_key(k) && word_distance(k, word) <= 1 ==> v.contains(k))
}

/// The words of `ks` at distance `dist` from `word`, in order.
pub open spec fn at_distance(ks: Seq<Seq<char>>, word: Seq<char>, dist: nat) -> Seq<Seq<char>>
    decreases ks.len(),
{
    if ks.len() == 0 {
        Seq::empty()
    } else if word_distance(ks.last(), word) == dist {
        at_distance(ks.drop_last(), word, dist).push(ks.last())
    } else {
        at_distance(ks.drop_last(), word, dist)
    }
}

proof fn lemma_at_distance(ks: Seq<Seq<char>>, word: Seq<char>, dist: nat)
    requires
        forall|a: int, b: int| 0 <= a < b < ks.len() ==> ks[a] != ks[b],
    ensures
        forall|i: int| 0 <= i < at_distance(ks, word, dist).len() ==> word_distance(
            #[trigger] at_distance(ks, word, dist)[i],
            word,
        ) == dist && ks.contains(at_distance(ks, word, dist)[i]),
        forall|x: Seq<char>| ks.contains(x) && word_distance(x, word) == dist ==> #[trigger] at_distance(
            ks,
            word,
            dist,
        ).contains(x),
        forall|a: int, b: int| 0 <= a < b < at_distance(ks, word, dist).len() ==> at_distance(ks, word, dist)[a]
            != at_distance(ks, word, dist)[b],
    decreases ks.len(),
{
    if ks.len() > 0 {
        let prev = ks.drop_last();
        lemma_at_distance(prev, word, dist);
        let r = at_distance(ks, word, dist);
        let pr = at_distance(prev, word, dist);
        assert forall|i: int| 0 <= i < r.len() implies word_distance(#[trigger] r[i], word) == dist && ks.contains(r[i]) by {
            if i < pr.len() {
                assert(r[i] == pr[i]);
                let j = choose|j: int| 0 <= j < prev.len() && prev[j] == pr[i];
                assert(ks[j] == r[i]);
            } else {
                assert(ks[ks.len() - 1] == r[i]);
            }
        }
        assert forall|x: Seq<char>| ks.contains(x) && word_distance(x, word) == dist implies #[trigger] r.contains(x) by {
            let j = choose|j: int| 0 <= j < ks.len() && ks[j] == x;
            if j < ks.len() - 1 {
                assert(prev[j] == x);
                assert(prev.contains(x));
                assert(pr.contains(x));
                let a = choose|a: int| 0 <= a < pr.len() && pr[a] == x;
                assert(r[a] == pr[a]);
                assert(r[a] == x);
            } else {
                assert(r[r.len() - 1] == x);
            }
        }
        assert forall|a: int, b: int| 0 <= a < b < r.len() implies r[a] != r[b] by {
            if b < pr.len() {
                assert(r[a] == pr[a] && r[b] == pr[b]);
            } else if word_distance(ks.last(), word) == dist {
                assert(r[b] == ks.last());
                assert(r[a] == pr[a]);
                let j = choose|j: int| 0 <= j < prev.len() && prev[j] == pr[a];
                assert(ks[j] == prev[j]);
            }
        }
    }
}

/// The words of `keys` at distance `dist` from `word`, in order.
fn words_at_distance(keys: &Vec<String>, word: &str, dist: u32) -> (r: Vec<String>)
    requires
        dist < 2,
    ensures
        r@.map_values(|x: String| x@) == at_distance(keys@.map_values(|x: String| x@), word@, dist as nat),
{
    let ghost ks = keys@.map_values(|x: String| x@);
    let mut out: Vec<String> = Vec::new();
    let mut i: usize = 0;
    proof {
        assert(ks.take(0) =~= Seq::<Seq<char>>::empty());
        assert(out@.map_values(|x: String| x@) =~= Seq::<Seq<char>>::empty());
    }
    while i < keys.len()
        invariant
            i <= keys@.len(),
            dist < 2,
            ks == keys@.map_values(|x: String| x@),
            out@.map_values(|x: String| x@) == at_distance(ks.take(i as int), word@, dist as nat),
        decreases keys@.len() - i,
    {
        proof {
            assert(ks.take(i + 1).drop_last() =~= ks.take(i as int));
            assert(ks.take(i + 1).last() == keys@[i as int]@);
        }
        let d = levenshtein_limit(keys[i].as_str(), word, 2);
        if d == dist {
            let ghost before = out@;
            out.push(keys[i].clone());
            proof {
                assert(out@.map_values(|x: String| x@) =~= before.map_values(|x: String| x@).push(keys@[i as int]@));
            }
        }
        i += 1;
    }
    proof {
        assert(ks.take(i as int) =~= ks);
    }
    out
}

/// The words of `a` followed by those of `b`, the first 10 at most.
fn first_ten(a: &Vec<String>, b: &Vec<String>) -> (r: Vec<String>)
    ensures
        r@.map_values(|x: String| x@) == (a@.map_values(|x: String| x@) + b@.map_values(|x: String| x@)).take(
            if a@.len() + b@.len() < 10 {
                (a@.len() + b@.len()) as int
            } else {
                10
            },
        ),
{
    let ghost all = a@.map_values(|x: String| x@) + b@.map_values(|x: String| x@);
    let mut out: Vec<String> = Vec::new();
    let mut j: usize = 0;
    while j < a.len() && out.len() < 10
        invariant
            j <= a@.len(),
            out@.len() == j,
            j <= 10,
            all == a@.map_values(|x: String| x@) + b@.map_values(|x: String| x@),
            out@.map_values(|x: String| x@) == all.take(j as int),
        decreases a@.len() - j,
    {
        out.push(a[j].clone());
        proof {
            assert(out@.map_values(|x: String| x@) =~= all.take(j + 1));
        }
        j += 1;
    }
    let mut k: usize = 0;
    while k < b.len() && out.len() < 10
        invariant
            k <= b@.len(),
            j <= a@.len(),
            out@.len() == j + k,
            j + k <= 10,
            (j + k < 10 || k > 0) ==> j == a@.len(),
            all == a@.map_values(|x: String| x@) + b@.map_values(|x: String| x@),
            out@.map_values(|x: String| x@) == all.take(j + k),
        decreases b@.len() - k,
    {
        out.push(b[k].clone());
        proof {
            assert(out@.map_values(|x: String| x@) =~= all.take(j + k + 1));
        }
        k += 1;
    }
    out
}

impl Dictionary {
    /// Suggestions for a word: `Ok` where the word is spelled correctly,
    /// else up to 10 words of the main list within distance 1 of it, the
    /// closest first. Which words are given, where there are more than 10,
    /// depends on the order of the word list.
    pub fn suggest_word(&self, word: &str) -> (r: Result<(), Vec<String>>)
        ensures
            accepts(self@, word@) ==> r is Ok,
            !accepts(self@, word@) ==> (r matches Err(v) && suggestions_for(self@, word@, v@.map_values(|x: String| x@))),
    {
        if self.check_word(word) {
            return Ok(());
        }
        let keys = self.wordlist.keys();
        let zeros = words_at_distance(&keys, word, 0);
        let ones = words_at_distance(&keys, word, 1);
        let out = first_ten(&zeros, &ones);
        proof {
            let ks = keys@.map_values(|x: String| x@);
            assert forall|a: int, b: int| 0 <= a < b < ks.len() implies ks[a] != ks[b] by {
                assert(ks[a] == keys@[a]@ && ks[b] == keys@[b]@);
            }
            assert forall|x: Seq<char>| self@.wordlist.contains_key(x) implies ks.contains(x) by {
                let a = choose|a: int| 0 <= a < keys@.len() && keys@[a]@ == x;
                assert(ks[a] == x);
            }
            assert forall|x: Seq<char>| ks.contains(x) implies self@.wordlist.contains_key(x) by {
                let a = choose|a: int| 0 <= a < ks.len() && ks[a] == x;
                assert(ks[a] == keys@[a]@);
            }
            lemma_at_distance(ks, word@, 0);
            lemma_at_distance(ks, word@, 1);
            lemma_suggestions(self@, word@, ks, out@.map_values(|x: String| x@));
        }
        Err(out)
    }
}

impl Dictionary {
    /// The misspelled words of a text, each with its byte offset and the
    /// suggestions for it: the words of [`Dictionary::check_indices`], in
    /// order, each with what [`Dictionary::suggest_word`] gives for it.
    pub fn suggest_indices(&self, input: &str) -> (r: Vec<(usize, String, Vec<String>)>)
        ensures
            r@.len() == rejected(self@, word_pieces(word_bounds_of(input@))).len(),
            forall|i: int|
                0 <= i < r@.len() ==> {
                    let p = rejected(self@, word_pieces(word_bounds_of(input@)))[i];
                    &&& (#[trigger] r@[i]).0 == p.0
                    &&& r@[i].1@ == p.1
                    &&& suggestions_for(self@, p.1, r@[i].2@.map_values(|x: String| x@))
                },
    {
        let bad = self.check_indices(input);
        let ghost ps = rejected(self@, word_pieces(word_bounds_of(input@)));
        proof {
            law_rejected_exact(self@, word_pieces(word_bounds_of(input@)));
        }
        let mut out: Vec<(usize, String, Vec<String>)> = Vec::new();
        let mut i: usize = 0;
        while i < bad.len()
            invariant
                i <= bad@.len(),
                ps == rejected(self@, word_pieces(word_bounds_of(input@))),
                pieces_view(bad@) == ps,
                forall|k: int| 0 <= k < ps.len() ==> !accepts(self@, (#[trigger] ps[k]).1),
                out@.len() == i,
                forall|k: int|
                    0 <= k < i ==> {
                        &&& (#[trigger] out@[k]).0 == ps[k].0
                        &&& out@[k].1@ == ps[k].1
                        &&& suggestions_for(self@, ps[k].1, out@[k].2@.map_values(|x: String| x@))
                    },
            decreases bad@.len() - i,
        {
            let (idx, w) = &bad[i];
            proof {
                assert(ps[i as int] == (bad@[i as int].0, bad@[i as int].1@));
                assert(!accepts(self@, ps[i as int].1));
            }
            match self.suggest_word(w.as_str()) {
                Err(v) => {
                    out.push((*idx, w.clone(), v));
                },
                Ok(()) => {},
            }
            i += 1;
        }
        out
    }
}

proof fn lemma_suggestions(d: DictView, word: Seq<char>, ks: Seq<Seq<char>>, v: Seq<Seq<char>>)
    requires
        forall|x: Seq<char>| d.wordlist.contains_key(x) <==> ks.contains(x),
        forall|a: int, b: int| 0 <= a < b < ks.len() ==> ks[a] != ks[b],
        ({
            let z = at_distance(ks, word, 0);
            let o = at_distance(ks, word, 1);
            v == (z + o).take(if z.len() + o.len() < 10 { (z.len() + o.len()) as int } else { 10 })
        }),
    ensures
        suggestions_for(d, word, v),
{
    let z = at_distance(ks, word, 0);
    let o = at_distance(ks, word, 1);
    lemma_at_distance(ks, word, 0);
    lemma_at_distance(ks, word, 1);
    let all = z + o;
    assert forall|i: int| 0 <= i < v.len() implies d.wordlist.contains_key(#[trigger] v[i]) && word_distance(v[i], word) <= 1 by {
        if i < z.len() {
            assert(v[i] == z[i]);
        } else {
            assert(v[i] == o[i - z.len()]);
        }
    }
    assert forall|a: int, b: int| 0 <= a < b < v.len() implies v[a] != v[b] by {
        if b < z.len() {
            assert(v[a] == z[a] && v[b] == z[b]);
        } else if a < z.len() {
            assert(v[a] == z[a] && v[b] == o[b - z.len()]);
            assert(word_distance(z[a], word) == 0);
            assert(word_distance(o[b - z.len()], word) == 1);
        } else {
            assert(v[a] == o[a - z.len()] && v[b] == o[b - z.len()]);
        }
    }
    assert forall|a: int, b: int| 0 <= a < b < v.len() implies word_distance(#[trigger] v[a], word)
        <= word_distance(#[trigger] v[b], word) by {
        if b < z.len() {
            assert(v[a] == z[a] && v[b] == z[b]);
            assert(word_distance(z[a], word) == 0);
        } else if a < z.len() {
            assert(v[a] == z[a]);
            assert(word_distance(z[a], word) == 0);
        } else {
            assert(v[a] == o[a - z.len()] && v[b] == o[b - z.len()]);
            assert(word_distance(o[a - z.len()], word) == 1);
            assert(word_distance(o[b - z.len()], word) == 1);
        }
    }
    if v.len() < 10 {
        assert(v =~= all);
        assert forall|x: Seq<char>| d.wordlist.contains_key(x) && word_distance(x, word) <= 1 implies v.contains(x) by {
            assert(ks.contains(x));
            if word_distance(x, word) == 0 {
                assert(z.contains(x));
                let a = choose|a: int| 0 <= a < z.len() && z[a] == x;
                assert(all[a] == x);
            } else {
                assert(word_distance(x, word) == 1);
                assert(o.contains(x));
                let a = choose|a: int| 0 <= a < o.len() && o[a] == x;
                assert(all[z.len() + a] == x);
            }
        }
    }
}

/* Laws */

/// A word in the forbidden list is never accepted.
pub proof fn law_forbidden_rejected(d: DictView, w: Seq<char>)
    requires
        d.forbidden.contains_key(w),
    ensures
        !accepts(d, w),
{
}

proof fn lemma_stem_words_keep(m: WordMap, stem: Seq<char>, u: FlagUse)
    ensures
        forall|k: Seq<char>| m.contains_key(k) ==> #[trigger] with_stem_words(m, stem, u).contains_key(k),
        u.add_stem ==> with_stem_words(m, stem, u).contains_key(stem),
{
    let m1 = if u.add_stem {
        add_meta(m, stem, dict_meta(stem))
    } else {
        m
    };
    helpers::lemma_affixed_keeps(m1, stem, stem, u.prefixes, u.suffixes);
    assert forall|k: Seq<char>| m.contains_key(k) implies #[trigger] with_stem_words(m, stem, u).contains_key(k) by {
        assert(m1.contains_key(k));
    }
    if u.add_stem {
        assert(m1.contains_key(stem));
    }
}

/// Adding a stem to a dictionary keeps every word of each of its lists,
/// and its flags.
pub proof fn law_add_keeps_words(d: DictView, stem: Seq<char>, fl: Seq<u32>)
    ensures
        with_word(d, stem, fl).flags == d.flags,
        with_word(d, stem, fl).flag_type == d.flag_type,
        forall|k: Seq<char>| d.wordlist.contains_key(k) ==> #[trigger] with_word(d, stem, fl).wordlist.contains_key(k),
        forall|k: Seq<char>| d.nosuggest.contains_key(k) ==> #[trigger] with_word(d, stem, fl).nosuggest.contains_key(k),
        forall|k: Seq<char>| d.forbidden.contains_key(k) ==> #[trigger] with_word(d, stem, fl).forbidden.contains_key(k),
{
    let u = flag_use(d.flags, fl);
    lemma_stem_words_keep(d.wordlist, stem, u);
    lemma_stem_words_keep(d.nosuggest, stem, u);
    lemma_stem_words_keep(d.forbidden, stem, u);
}

/// A stem whose flags do not ask for an affix becomes a word of the
/// dictionary: a forbidden one, never accepted, where a flag forbids it;
/// else one that is accepted, unless the dictionary already forbids it.
pub proof fn law_stem_listed(d: DictView, stem: Seq<char>, fl: Seq<u32>)
    requires
        flag_use(d.flags, fl).add_stem,
    ensures
        flag_use(d.flags, fl).forbid ==> !accepts(with_word(d, stem, fl), stem),
        !flag_use(d.flags, fl).forbid && !d.forbidden.contains_key(stem) ==> accepts(with_word(d, stem, fl), stem),
{
    let u = flag_use(d.flags, fl);
    lemma_stem_words_keep(d.wordlist, stem, u);
    lemma_stem_words_keep(d.nosuggest, stem, u);
    lemma_stem_words_keep(d.forbidden, stem, u);
}

/// Adding a stem whose flags do not forbid it keeps every accepted word
/// accepted.
pub proof fn law_add_keeps_accepted(d: DictView, stem: Seq<char>, fl: Seq<u32>, w: Seq<char>)
    requires
        !flag_use(d.flags, fl).forbid,
        accepts(d, w),
    ensures
        accepts(with_word(d, stem, fl), w),
{
    law_add_keeps_words(d, stem, fl);
    let lower = spec_to_lowercase(w);
    if d.wordlist.contains_key(w) {
        assert(with_word(d, stem, fl).wordlist.contains_key(w));
    }
    if d.wordlist.contains_key(lower) {
        assert(with_word(d, stem, fl).wordlist.contains_key(lower));
    }
    if d.nosuggest.contains_key(w) {
        assert(with_word(d, stem, fl).nosuggest.contains_key(w));
    }
    if d.nosuggest.contains_key(lower) {
        assert(with_word(d, stem, fl).nosuggest.contains_key(lower));
    }
}

/// Every word of a personal dictionary marked as forbidden is rejected by
/// the dictionary that its entries build, whatever entries follow it; an
/// entry not marked so is accepted when it is added, unless the dictionary
/// forbids it.
pub proof fn law_personal_words(d: DictView, es: Seq<PersonalView>, i: int)
    requires
        0 <= i < es.len(),
    ensures
        es[i].3 ==> !accepts(with_personals(d, es), es[i].0),
        !es[i].3 && !with_personals(d, es.take(i)).forbidden.contains_key(es[i].0) ==> accepts(
            with_personal(with_personals(d, es.take(i)), es[i]),
            es[i].0,
        ),
    decreases es.len(),
{
    if i < es.len() - 1 {
        law_personal_words(d, es.drop_last(), i);
        assert(es.drop_last()[i] == es[i]);
        assert(es.drop_last().take(i) =~= es.take(i));
        if es[i].3 {
            assert(with_personals(d, es.drop_last()).forbidden.contains_key(es[i].0)) by {
                lemma_personals_forbidden(d, es.drop_last(), i);
            }
        }
    } else {
        assert(es.drop_last() =~= es.take(i));
    }
}

proof fn lemma_personals_forbidden(d: DictView, es: Seq<PersonalView>, i: int)
    requires
        0 <= i < es.len(),
        es[i].3,
    ensures
        with_personals(d, es).forbidden.contains_key(es[i].0),
    decreases es.len(),
{
    if i < es.len() - 1 {
        lemma_personals_forbidden(d, es.drop_last(), i);
        assert(es.drop_last()[i] == es[i]);
    }
}

/// The pieces that `rejected` keeps are exactly those whose words are not
/// accepted, in their order.
pub proof fn law_rejected_exact(d: DictView, ps: Seq<Piece>)
    ensures
        forall|i: int| 0 <= i < rejected(d, ps).len() ==> !accepts(d, (#[trigger] rejected(d, ps)[i]).1)
            && ps.contains(rejected(d, ps)[i]),
        forall|i: int| 0 <= i < ps.len() && !accepts(d, (#[trigger] ps[i]).1) ==> rejected(d, ps).contains(ps[i]),
        rejected(d, ps).len() <= ps.len(),
    decreases ps.len(),
{
    if ps.len() > 0 {
        let prev = ps.drop_last();
        law_rejected_exact(d, prev);
        let r = rejected(d, ps);
        assert forall|i: int| 0 <= i < r.len() implies !accepts(d, (#[trigger] r[i]).1) && ps.contains(r[i]) by {
            if i < rejected(d, prev).len() {
                assert(r[i] == rejected(d, prev)[i]);
                let j = choose|j: int| 0 <= j < prev.len() && prev[j] == r[i];
                assert(ps[j] == r[i]);
            } else {
                assert(r[i] == ps.last());
                assert(ps[ps.len() - 1] == r[i]);
            }
        }
        assert forall|i: int| 0 <= i < ps.len() && !accepts(d, (#[trigger] ps[i]).1) implies r.contains(ps[i]) by {
            if i < ps.len() - 1 {
                assert(prev[i] == ps[i]);
                let j = choose|j: int| 0 <= j < rejected(d, prev).len() && rejected(d, prev)[j] == prev[i];
                assert(r[j] == ps[i]);
            } else {
                assert(r[r.len() - 1] == ps[i]);
            }
        }
    }
}

/// Case folding applies alike to every list a word is accepted from: a word
/// that is not forbidden is accepted when it, or its lowercase form, is in
/// the main list or in the no-suggest list; a forbidden word never is, and
/// an accepted word is found in one of those four ways.
pub proof fn law_case_folding(d: DictView, w: Seq<char>)
    ensures
        !d.forbidden.contains_key(w) && d.wordlist.contains_key(w) ==> accepts(d, w),
        !d.forbidden.contains_key(w) && d.nosuggest.contains_key(w) ==> accepts(d, w),
        !d.forbidden.contains_key(w) && d.wordlist.contains_key(spec_to_lowercase(w)) ==> accepts(d, w),
        !d.forbidden.contains_key(w) && d.nosuggest.contains_key(spec_to_lowercase(w)) ==> accepts(d, w),
        d.forbidden.contains_key(w) ==> !accepts(d, w),
        accepts(d, w) ==> d.wordlist.contains_key(w) || d.nosuggest.contains_key(w) || d.wordlist.contains_key(
            spec_to_lowercase(w),
        ) || d.nosuggest.contains_key(spec_to_lowercase(w)),
{
}

/// A word is found for stemming exactly when it is written as a word of
/// the main list or of the no-suggest list; its metas are those of the main
/// list where it is there, else those of the no-suggest list; and the stems
/// given for it start with the stem of each of its metas, in order.
pub proof fn law_stem_found(d: DictView, w: Seq<char>)
    ensures
        found_metas(d, w) is Some <==> (d.wordlist.contains_key(w) || d.nosuggest.contains_key(w)),
        d.wordlist.contains_key(w) ==> found_metas(d, w) == Some(d.wordlist[w]),
        !d.wordlist.contains_key(w) && d.nosuggest.contains_key(w) ==> found_metas(d, w) == Some(
            d.nosuggest[w],
        ),
        found_metas(d, w) matches Some(ms) ==> word_stems(ms).len() >= ms.len() && forall|i: int|
            0 <= i < ms.len() ==> #[trigger] word_stems(ms)[i] == ms[i].0,
{
    match found_metas(d, w) {
        Some(ms) => {
            assert forall|i: int| 0 <= i < ms.len() implies #[trigger] word_stems(ms)[i] == ms[i].0 by {
                assert(word_stems(ms)[i] == ms.map_values(|m: MetaView| m.0)[i]);
            }
        },
        None => {},
    }
}

} // verus!

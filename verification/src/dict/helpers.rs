//! Making the words of a stem, and splitting text into words.

use std::sync::Arc;
use vstd::prelude::*;

use super::rule::{all_applied, AfxRule, PatternView};
use super::types::{clone_arc, Meta, MetaView, Source, SourceView};
use super::wordlist::{add_meta, WordList, WordMap};
use crate::affix::RuleType;
use crate::text::{is_alphanumeric, spec_is_alphanumeric};
use unicode_segmentation::UnicodeSegmentation;

verus! {

/// The value of an affix rule: its kind, whether it combines with rules of
/// the other kind, and its patterns.
pub type RuleView = (RuleType, bool, Seq<PatternView>);

/// The value of the rule `r`.
pub open spec fn rule_view(r: AfxRule) -> RuleView {
    (r.spec_kind(), r.spec_can_combine(), r.spec_patterns())
}

/// The values of a list of rules.
pub open spec fn rules_view(v: Seq<Arc<AfxRule>>) -> Seq<RuleView> {
    v.map_values(|r: Arc<AfxRule>| rule_view(*r))
}

/// The words that the rule `r` makes of `s`: one for each of its patterns
/// whose condition holds, in the order of the patterns.
pub open spec fn rule_words(r: RuleView, s: Seq<char>) -> Seq<Seq<char>> {
    all_applied(r.2, r.0, s)
}

/// The meta of a word that the rule `r` made of the stem `stem`.
pub open spec fn affix_meta(stem: Seq<char>, r: RuleView) -> MetaView {
    (stem, SourceView::Affix(r.0, r.1, r.2))
}

/// `m` with the meta `x` added to each word of `ws`, in turn.
pub open spec fn add_metas(m: WordMap, ws: Seq<Seq<char>>, x: MetaView) -> WordMap
    decreases ws.len(),
{
    if ws.len() == 0 {
        m
    } else {
        add_meta(add_metas(m, ws.drop_last(), x), ws.last(), x)
    }
}

/// `m` with the metas `x` and then `y` added to each word of `ws`, in turn.
pub open spec fn add_meta_pairs(m: WordMap, ws: Seq<Seq<char>>, x: MetaView, y: MetaView) -> WordMap
    decreases ws.len(),
{
    if ws.len() == 0 {
        m
    } else {
        add_meta(add_meta(add_meta_pairs(m, ws.drop_last(), x, y), ws.last(), x), ws.last(), y)
    }
}

/// A word made by a prefix rule, and that rule.
pub type Prefixed = (Seq<char>, RuleView);

/// Each word of `ws` paired with the rule `r` that made it.
pub open spec fn tagged(ws: Seq<Seq<char>>, r: RuleView) -> Seq<Prefixed> {
    ws.map_values(|w: Seq<char>| (w, r))
}

/// Apply the prefix rules `rules` to `stem` in turn, adding each word made
/// to `m` with a meta of stem `st`. Gives the new map, the words made by the
/// rules that combine, and whether every rule applied: the first rule none
/// of whose patterns applies stops the pass.
pub open spec fn prefix_pass(m: WordMap, stem: Seq<char>, st: Seq<char>, rules: Seq<RuleView>) -> (
    WordMap,
    Seq<Prefixed>,
    bool,
)
    decreases rules.len(),
{
    if rules.len() == 0 {
        (m, Seq::empty(), true)
    } else {
        let prev = prefix_pass(m, stem, st, rules.drop_last());
        let r = rules.last();
        let ws = rule_words(r, stem);
        if !prev.2 {
            prev
        } else if ws.len() == 0 {
            (prev.0, prev.1, false)
        } else {
            (
                add_metas(prev.0, ws, affix_meta(st, r)),
                if r.1 {
                    prev.1 + tagged(ws, r)
                } else {
                    prev.1
                },
                true,
            )
        }
    }
}

/// Apply the suffix rule `r` to each prefixed word of `pw` in turn, adding
/// each word made to `m` with a meta for the suffix rule and one for the
/// prefix rule.
pub open spec fn combine_pass(m: WordMap, st: Seq<char>, r: RuleView, pw: Seq<Prefixed>) -> WordMap
    decreases pw.len(),
{
    if pw.len() == 0 {
        m
    } else {
        add_meta_pairs(
            combine_pass(m, st, r, pw.drop_last()),
            rule_words(r, pw.last().0),
            affix_meta(st, r),
            affix_meta(st, pw.last().1),
        )
    }
}

/// Apply the suffix rules `rules` to `stem` in turn as [`prefix_pass`]
/// does; a rule that combines is applied to the prefixed words `pw` too.
pub open spec fn suffix_pass(m: WordMap, stem: Seq<char>, st: Seq<char>, pw: Seq<Prefixed>, rules: Seq<
    RuleView,
>) -> (WordMap, bool)
    decreases rules.len(),
{
    if rules.len() == 0 {
        (m, true)
    } else {
        let prev = suffix_pass(m, stem, st, pw, rules.drop_last());
        let r = rules.last();
        let ws = rule_words(r, stem);
        if !prev.1 {
            prev
        } else if ws.len() == 0 {
            (prev.0, false)
        } else {
            let m2 = add_metas(prev.0, ws, affix_meta(st, r));
            (
                if r.1 {
                    combine_pass(m2, st, r, pw)
                } else {
                    m2
                },
                true,
            )
        }
    }
}

/// The words that the prefix rules `pfx` and the suffix rules `sfx` make of
/// `stem`, added to `m`: the prefix pass, then the suffix pass. Gives the new
/// map and whether every rule applied.
pub open spec fn affixed_word_map(m: WordMap, stem: Seq<char>, st: Seq<char>, pfx: Seq<RuleView>, sfx: Seq<
    RuleView,
>) -> (WordMap, bool) {
    if pfx.len() == 0 && sfx.len() == 0 {
        (m, true)
    } else {
        let p = prefix_pass(m, stem, st, pfx);
        if !p.2 {
            (p.0, false)
        } else {
            suffix_pass(p.0, stem, st, p.1, sfx)
        }
    }
}

proof fn lemma_prefix_failed(m: WordMap, stem: Seq<char>, st: Seq<char>, rules: Seq<RuleView>, k: int)
    requires
        0 <= k <= rules.len(),
        !prefix_pass(m, stem, st, rules.take(k)).2,
    ensures
        prefix_pass(m, stem, st, rules) == prefix_pass(m, stem, st, rules.take(k)),
    decreases rules.len() - k,
{
    if k < rules.len() {
        assert(rules.take(k + 1).drop_last() =~= rules.take(k));
        lemma_prefix_failed(m, stem, st, rules, k + 1);
    } else {
        assert(rules.take(k) =~= rules);
    }
}

proof fn lemma_suffix_failed(
    m: WordMap,
    stem: Seq<char>,
    st: Seq<char>,
    pw: Seq<Prefixed>,
    rules: Seq<RuleView>,
    k: int,
)
    requires
        0 <= k <= rules.len(),
        !suffix_pass(m, stem, st, pw, rules.take(k)).1,
    ensures
        suffix_pass(m, stem, st, pw, rules) == suffix_pass(m, stem, st, pw, rules.take(k)),
    decreases rules.len() - k,
{
    if k < rules.len() {
        assert(rules.take(k + 1).drop_last() =~= rules.take(k));
        lemma_suffix_failed(m, stem, st, pw, rules, k + 1);
    } else {
        assert(rules.take(k) =~= rules);
    }
}

/// The values of a list of prefixed words.
pub open spec fn prefixed_view(v: Seq<(String, Arc<AfxRule>)>) -> Seq<Prefixed> {
    v.map_values(|p: (String, Arc<AfxRule>)| (p.0@, rule_view(*p.1)))
}

/// Add a meta of the stem `stem_rc` and the rule `rule` to each word of
/// `words`.
fn add_rule_words(words: &Vec<String>, rule: &Arc<AfxRule>, stem_rc: &Arc<String>, dest: &mut WordList)
    ensures
        final(dest).contents() == add_metas(
            old(dest).contents(),
            words@.map_values(|x: String| x@),
            affix_meta(stem_rc@, rule_view(**rule)),
        ),
{
    let ghost ws = words@.map_values(|x: String| x@);
    let mut i: usize = 0;
    proof {
        assert(ws.take(0) =~= Seq::<Seq<char>>::empty());
    }
    while i < words.len()
        invariant
            i <= words@.len(),
            ws == words@.map_values(|x: String| x@),
            dest.contents() == add_metas(old(dest).contents(), ws.take(i as int), affix_meta(stem_rc@, rule_view(**rule))),
        decreases words@.len() - i,
    {
        proof {
            assert(ws.take(i + 1).drop_last() =~= ws.take(i as int));
            assert(ws.take(i + 1).last() == words@[i as int]@);
        }
        dest.add_meta(words[i].as_str(), Meta::new(clone_arc(stem_rc), Source::Affix(clone_arc(rule))));
        i += 1;
    }
    proof {
        assert(ws.take(i as int) =~= ws);
    }
}

/// Apply the suffix rule `rule` to each prefixed word.
fn combine_words(rule: &Arc<AfxRule>, prefixed: &Vec<(String, Arc<AfxRule>)>, stem_rc: &Arc<String>, dest: &mut WordList)
    ensures
        final(dest).contents() == combine_pass(old(dest).contents(), stem_rc@, rule_view(**rule), prefixed_view(prefixed@)),
{
    let ghost pw = prefixed_view(prefixed@);
    let mut j: usize = 0;
    proof {
        assert(pw.take(0) =~= Seq::<Prefixed>::empty());
    }
    while j < prefixed.len()
        invariant
            j <= prefixed@.len(),
            pw == prefixed_view(prefixed@),
            dest.contents() == combine_pass(old(dest).contents(), stem_rc@, rule_view(**rule), pw.take(j as int)),
        decreases prefixed@.len() - j,
    {
        proof {
            assert(pw.take(j + 1).drop_last() =~= pw.take(j as int));
            assert(pw.take(j + 1).last() == pw[j as int]);
            assert(pw[j as int] == (prefixed@[j as int].0@, rule_view(*prefixed@[j as int].1)));
        }
        let (word, pfx_rule) = &prefixed[j];
        let made = rule.apply_patterns(word.as_str());
        let ghost ws = made@.map_values(|x: String| x@);
        let ghost start = dest.contents();
        let mut k: usize = 0;
        proof {
            assert(ws.take(0) =~= Seq::<Seq<char>>::empty());
        }
        while k < made.len()
            invariant
                k <= made@.len(),
                ws == made@.map_values(|x: String| x@),
                dest.contents() == add_meta_pairs(
                    start,
                    ws.take(k as int),
                    affix_meta(stem_rc@, rule_view(**rule)),
                    affix_meta(stem_rc@, rule_view(**pfx_rule)),
                ),
            decreases made@.len() - k,
        {
            proof {
                assert(ws.take(k + 1).drop_last() =~= ws.take(k as int));
                assert(ws.take(k + 1).last() == made@[k as int]@);
            }
            dest.add_meta(made[k].as_str(), Meta::new(clone_arc(stem_rc), Source::Affix(clone_arc(rule))));
            dest.add_meta(made[k].as_str(), Meta::new(clone_arc(stem_rc), Source::Affix(clone_arc(pfx_rule))));
            k += 1;
        }
        proof {
            assert(ws.take(k as int) =~= ws);
        }
        j += 1;
    }
    proof {
        assert(pw.take(j as int) =~= pw);
    }
}

/// Add to `dest` every word that the prefix rules `prefix_rules` and the
/// suffix rules `suffix_rules` make of `stem`, each with a meta of the stem
/// `stem_rc` and the rule (or, for a word with both, the two rules). Every
/// pattern of a rule whose condition holds makes a word. The prefix rules
/// are applied first; a suffix rule that combines is applied to the words
/// of the prefix rules that combine too. The first rule none of whose
/// patterns applies to `stem` stops the work, and the result is then `Err`.
pub fn create_affixed_word_map(
    prefix_rules: &Vec<Arc<AfxRule>>,
    suffix_rules: &Vec<Arc<AfxRule>>,
    stem: &str,
    stem_rc: &Arc<String>,
    dest: &mut WordList,
) -> (r: Result<(), ()>)
    ensures
        ({
            let res = affixed_word_map(
                old(dest).contents(),
                stem@,
                stem_rc@,
                rules_view(prefix_rules@),
                rules_view(suffix_rules@),
            );
            final(dest).contents() == res.0 && (r is Ok <==> res.1)
        }),
{
    if prefix_rules.len() == 0 && suffix_rules.len() == 0 {
        return Ok(());
    }
    let ghost m0 = dest.contents();
    let ghost pfx = rules_view(prefix_rules@);
    let ghost sfx = rules_view(suffix_rules@);
    let mut prefixed: Vec<(String, Arc<AfxRule>)> = Vec::new();
    let mut i: usize = 0;
    proof {
        assert(pfx.take(0) =~= Seq::<RuleView>::empty());
        assert(prefixed_view(prefixed@) =~= Seq::<Prefixed>::empty());
    }
    while i < prefix_rules.len()
        invariant
            i <= prefix_rules@.len(),
            pfx == rules_view(prefix_rules@),
            m0 == old(dest).contents(),
            prefix_pass(m0, stem@, stem_rc@, pfx.take(i as int)) == (
                dest.contents(),
                prefixed_view(prefixed@),
                true,
            ),
        decreases prefix_rules@.len() - i,
    {
        let rule = &prefix_rules[i];
        proof {
            assert(pfx.take(i + 1).drop_last() =~= pfx.take(i as int));
            assert(pfx.take(i + 1).last() == pfx[i as int]);
            assert(pfx[i as int] == rule_view(**rule));
        }
        let made = rule.apply_patterns(stem);
        if made.len() == 0 {
            proof {
                lemma_prefix_failed(m0, stem@, stem_rc@, pfx, i + 1);
            }
            return Err(());
        }
        add_rule_words(&made, rule, stem_rc, dest);
        if rule.can_combine() {
            let ghost before = prefixed@;
            let ghost ws = made@.map_values(|x: String| x@);
            let mut k: usize = 0;
            while k < made.len()
                invariant
                    k <= made@.len(),
                    ws == made@.map_values(|x: String| x@),
                    prefixed_view(prefixed@) == prefixed_view(before) + tagged(ws.take(k as int), rule_view(**rule)),
                decreases made@.len() - k,
            {
                let ghost b2 = prefixed@;
                let rc = clone_arc(rule);
                prefixed.push((made[k].clone(), rc));
                proof {
                    assert(prefixed_view(prefixed@) =~= prefixed_view(b2).push((made@[k as int]@, rule_view(**rule))));
                    assert(tagged(ws.take(k + 1), rule_view(**rule)) =~= tagged(ws.take(k as int), rule_view(**rule)).push(
                        (made@[k as int]@, rule_view(**rule)),
                    ));
                }
                k += 1;
            }
            proof {
                assert(ws.take(k as int) =~= ws);
            }
        }
        i += 1;
    }
    proof {
        assert(pfx.take(i as int) =~= pfx);
    }
    let ghost m1 = dest.contents();
    let ghost pw = prefixed_view(prefixed@);
    let mut k: usize = 0;
    proof {
        assert(sfx.take(0) =~= Seq::<RuleView>::empty());
    }
    while k < suffix_rules.len()
        invariant
            k <= suffix_rules@.len(),
            sfx == rules_view(suffix_rules@),
            pfx == rules_view(prefix_rules@),
            m0 == old(dest).contents(),
            !(prefix_rules@.len() == 0 && suffix_rules@.len() == 0),
            prefix_pass(m0, stem@, stem_rc@, pfx) == (m1, pw, true),
            pw == prefixed_view(prefixed@),
            suffix_pass(m1, stem@, stem_rc@, pw, sfx.take(k as int)) == (dest.contents(), true),
        decreases suffix_rules@.len() - k,
    {
        let rule = &suffix_rules[k];
        proof {
            assert(sfx.take(k + 1).drop_last() =~= sfx.take(k as int));
            assert(sfx.take(k + 1).last() == sfx[k as int]);
            assert(sfx[k as int] == rule_view(**rule));
        }
        let made = rule.apply_patterns(stem);
        if made.len() == 0 {
            proof {
                lemma_suffix_failed(m1, stem@, stem_rc@, pw, sfx, k + 1);
            }
            return Err(());
        }
        add_rule_words(&made, rule, stem_rc, dest);
        if rule.can_combine() {
            combine_words(rule, &prefixed, stem_rc, dest);
        }
        k += 1;
    }
    proof {
        assert(sfx.take(k as int) =~= sfx);
    }
    Ok(())
}

/// Adding metas keeps every word of the map, and adds each of the words.
pub proof fn lemma_add_metas(m: WordMap, ws: Seq<Seq<char>>, x: MetaView)
    ensures
        forall|k: Seq<char>| m.contains_key(k) ==> #[trigger] add_metas(m, ws, x).contains_key(k),
        forall|j: int| 0 <= j < ws.len() ==> add_metas(m, ws, x).contains_key(#[trigger] ws[j]),
    decreases ws.len(),
{
    if ws.len() > 0 {
        lemma_add_metas(m, ws.drop_last(), x);
        assert forall|k: Seq<char>| m.contains_key(k) implies #[trigger] add_metas(m, ws, x).contains_key(k) by {
            assert(add_metas(m, ws.drop_last(), x).contains_key(k));
        }
        assert forall|j: int| 0 <= j < ws.len() implies add_metas(m, ws, x).contains_key(#[trigger] ws[j]) by {
            if j < ws.len() - 1 {
                assert(ws.drop_last()[j] == ws[j]);
            }
        }
    }
}

/// Adding pairs of metas keeps every word of the map.
pub proof fn lemma_add_meta_pairs(m: WordMap, ws: Seq<Seq<char>>, x: MetaView, y: MetaView)
    ensures
        forall|k: Seq<char>| m.contains_key(k) ==> #[trigger] add_meta_pairs(m, ws, x, y).contains_key(k),
    decreases ws.len(),
{
    if ws.len() > 0 {
        lemma_add_meta_pairs(m, ws.drop_last(), x, y);
        assert forall|k: Seq<char>| m.contains_key(k) implies #[trigger] add_meta_pairs(m, ws, x, y).contains_key(k) by {
            assert(add_meta_pairs(m, ws.drop_last(), x, y).contains_key(k));
        }
    }
}

/// The prefix pass keeps every word of the map it starts from.
pub proof fn lemma_prefix_keeps(m: WordMap, stem: Seq<char>, st: Seq<char>, rules: Seq<RuleView>)
    ensures
        forall|k: Seq<char>| m.contains_key(k) ==> #[trigger] prefix_pass(m, stem, st, rules).0.contains_key(k),
    decreases rules.len(),
{
    if rules.len() > 0 {
        let prev = prefix_pass(m, stem, st, rules.drop_last());
        let r = rules.last();
        lemma_prefix_keeps(m, stem, st, rules.drop_last());
        lemma_add_metas(prev.0, rule_words(r, stem), affix_meta(st, r));
        assert forall|k: Seq<char>| m.contains_key(k) implies #[trigger] prefix_pass(m, stem, st, rules).0.contains_key(k) by {
            assert(prev.0.contains_key(k));
        }
    }
}

/// The combining pass keeps every word of the map it starts from.
pub proof fn lemma_combine_keeps(m: WordMap, st: Seq<char>, r: RuleView, pw: Seq<Prefixed>)
    ensures
        forall|k: Seq<char>| m.contains_key(k) ==> #[trigger] combine_pass(m, st, r, pw).contains_key(k),
    decreases pw.len(),
{
    if pw.len() > 0 {
        let prev = combine_pass(m, st, r, pw.drop_last());
        lemma_combine_keeps(m, st, r, pw.drop_last());
        lemma_add_meta_pairs(prev, rule_words(r, pw.last().0), affix_meta(st, r), affix_meta(st, pw.last().1));
        assert forall|k: Seq<char>| m.contains_key(k) implies #[trigger] combine_pass(m, st, r, pw).contains_key(k) by {
            assert(prev.contains_key(k));
        }
    }
}

/// The suffix pass keeps every word of the map it starts from.
pub proof fn lemma_suffix_keeps(m: WordMap, stem: Seq<char>, st: Seq<char>, pw: Seq<Prefixed>, rules: Seq<RuleView>)
    ensures
        forall|k: Seq<char>| m.contains_key(k) ==> #[trigger] suffix_pass(m, stem, st, pw, rules).0.contains_key(k),
    decreases rules.len(),
{
    if rules.len() > 0 {
        let prev = suffix_pass(m, stem, st, pw, rules.drop_last());
        lemma_suffix_keeps(m, stem, st, pw, rules.drop_last());
        let r = rules.last();
        let ws = rule_words(r, stem);
        let m2 = add_metas(prev.0, ws, affix_meta(st, r));
        lemma_add_metas(prev.0, ws, affix_meta(st, r));
        lemma_combine_keeps(m2, st, r, pw);
        assert forall|k: Seq<char>| m.contains_key(k) implies #[trigger] suffix_pass(m, stem, st, pw, rules).0.contains_key(k) by {
            assert(prev.0.contains_key(k));
            assert(m2.contains_key(k));
        }
    }
}

/// Making the words of a stem keeps every word of the map it starts from.
pub proof fn lemma_affixed_keeps(m: WordMap, stem: Seq<char>, st: Seq<char>, pfx: Seq<RuleView>, sfx: Seq<RuleView>)
    ensures
        forall|k: Seq<char>| m.contains_key(k) ==> #[trigger] affixed_word_map(m, stem, st, pfx, sfx).0.contains_key(k),
{
    lemma_prefix_keeps(m, stem, st, pfx);
    let p = prefix_pass(m, stem, st, pfx);
    lemma_suffix_keeps(p.0, stem, st, p.1, sfx);
}

/// Whether every word of `ws` is in `m`.
pub open spec fn all_listed(m: WordMap, ws: Seq<Seq<char>>) -> bool {
    forall|j: int| 0 <= j < ws.len() ==> m.contains_key(#[trigger] ws[j])
}

/// Where every prefix rule applies, each makes at least one word of the
/// stem, and every word it makes is in the map.
pub proof fn lemma_prefix_words(m: WordMap, stem: Seq<char>, st: Seq<char>, rules: Seq<RuleView>)
    requires
        prefix_pass(m, stem, st, rules).2,
    ensures
        forall|i: int| 0 <= i < rules.len() ==> (#[trigger] rule_words(rules[i], stem)).len() > 0
            && all_listed(prefix_pass(m, stem, st, rules).0, rule_words(rules[i], stem)),
    decreases rules.len(),
{
    if rules.len() > 0 {
        let prev = prefix_pass(m, stem, st, rules.drop_last());
        let r = rules.last();
        let ws = rule_words(r, stem);
        let m2 = prefix_pass(m, stem, st, rules).0;
        lemma_prefix_words(m, stem, st, rules.drop_last());
        lemma_add_metas(prev.0, ws, affix_meta(st, r));
        assert forall|i: int| 0 <= i < rules.len() implies (#[trigger] rule_words(rules[i], stem)).len() > 0
            && all_listed(m2, rule_words(rules[i], stem)) by {
            if i < rules.len() - 1 {
                assert(rules.drop_last()[i] == rules[i]);
                let wi = rule_words(rules[i], stem);
                assert(all_listed(prev.0, wi));
                assert forall|j: int| 0 <= j < wi.len() implies m2.contains_key(#[trigger] wi[j]) by {
                    assert(prev.0.contains_key(wi[j]));
                }
            } else {
                assert(rules[i] == r);
            }
        }
    }
}

/// Where every suffix rule applies, each makes at least one word of the
/// stem, and every word it makes is in the map.
pub proof fn lemma_suffix_words(m: WordMap, stem: Seq<char>, st: Seq<char>, pw: Seq<Prefixed>, rules: Seq<RuleView>)
    requires
        suffix_pass(m, stem, st, pw, rules).1,
    ensures
        forall|i: int| 0 <= i < rules.len() ==> (#[trigger] rule_words(rules[i], stem)).len() > 0
            && all_listed(suffix_pass(m, stem, st, pw, rules).0, rule_words(rules[i], stem)),
    decreases rules.len(),
{
    if rules.len() > 0 {
        let prev = suffix_pass(m, stem, st, pw, rules.drop_last());
        lemma_suffix_words(m, stem, st, pw, rules.drop_last());
        let r = rules.last();
        let ws = rule_words(r, stem);
        let m2 = add_metas(prev.0, ws, affix_meta(st, r));
        let m3 = suffix_pass(m, stem, st, pw, rules).0;
        lemma_add_metas(prev.0, ws, affix_meta(st, r));
        lemma_combine_keeps(m2, st, r, pw);
        assert forall|k: Seq<char>| m2.contains_key(k) implies #[trigger] m3.contains_key(k) by {
            if r.1 {
                assert(combine_pass(m2, st, r, pw).contains_key(k));
            }
        }
        assert forall|i: int| 0 <= i < rules.len() implies (#[trigger] rule_words(rules[i], stem)).len() > 0
            && all_listed(m3, rule_words(rules[i], stem)) by {
            let wi = rule_words(rules[i], stem);
            if i < rules.len() - 1 {
                assert(rules.drop_last()[i] == rules[i]);
                assert(all_listed(prev.0, wi));
                assert forall|j: int| 0 <= j < wi.len() implies m3.contains_key(#[trigger] wi[j]) by {
                    assert(prev.0.contains_key(wi[j]));
                    assert(m2.contains_key(wi[j]));
                }
            } else {
                assert(rules[i] == r);
                assert forall|j: int| 0 <= j < wi.len() implies m3.contains_key(#[trigger] wi[j]) by {
                    assert(m2.contains_key(wi[j]));
                }
            }
        }
    }
}

/// Every affix rule of a stem makes its words: where the work is not
/// stopped by a rule none of whose patterns applies, each prefix and each
/// suffix rule makes at least one word of the stem, every word that any of
/// its patterns makes is in the new map, and so is every word of the old
/// one.
pub proof fn law_affixed_words_listed(m: WordMap, stem: Seq<char>, st: Seq<char>, pfx: Seq<RuleView>, sfx: Seq<RuleView>)
    requires
        affixed_word_map(m, stem, st, pfx, sfx).1,
    ensures
        forall|k: Seq<char>| m.contains_key(k) ==> #[trigger] affixed_word_map(m, stem, st, pfx, sfx).0.contains_key(k),
        forall|i: int| 0 <= i < pfx.len() ==> (#[trigger] rule_words(pfx[i], stem)).len() > 0
            && all_listed(affixed_word_map(m, stem, st, pfx, sfx).0, rule_words(pfx[i], stem)),
        forall|i: int| 0 <= i < sfx.len() ==> (#[trigger] rule_words(sfx[i], stem)).len() > 0
            && all_listed(affixed_word_map(m, stem, st, pfx, sfx).0, rule_words(sfx[i], stem)),
{
    lemma_affixed_keeps(m, stem, st, pfx, sfx);
    if !(pfx.len() == 0 && sfx.len() == 0) {
        let p = prefix_pass(m, stem, st, pfx);
        let fin = affixed_word_map(m, stem, st, pfx, sfx).0;
        lemma_prefix_words(m, stem, st, pfx);
        lemma_suffix_keeps(p.0, stem, st, p.1, sfx);
        lemma_suffix_words(p.0, stem, st, p.1, sfx);
        assert forall|i: int| 0 <= i < pfx.len() implies (#[trigger] rule_words(pfx[i], stem)).len() > 0
            && all_listed(fin, rule_words(pfx[i], stem)) by {
            let wi = rule_words(pfx[i], stem);
            assert(all_listed(p.0, wi));
            assert forall|j: int| 0 <= j < wi.len() implies fin.contains_key(#[trigger] wi[j]) by {
                assert(p.0.contains_key(wi[j]));
            }
        }
    }
}

/// Whether one of the rules `rules` makes `k` of `w`.
pub open spec fn made_by(rules: Seq<RuleView>, w: Seq<char>, k: Seq<char>) -> bool {
    exists|i: int| 0 <= i < rules.len() && #[trigger] rule_words(rules[i], w).contains(k)
}

/// Whether one of the rules `rules` that combine makes `w` of `stem`.
pub open spec fn from_combining(rules: Seq<RuleView>, stem: Seq<char>, w: Seq<char>) -> bool {
    exists|i: int| 0 <= i < rules.len() && rules[i].1 && #[trigger] rule_words(rules[i], stem).contains(w)
}

/// Whether one of the rules `rules` that combine makes `k` of one of the
/// prefixed words `pw`.
pub open spec fn combined_from(rules: Seq<RuleView>, pw: Seq<Prefixed>, k: Seq<char>) -> bool {
    exists|j: int, t: int|
        0 <= j < rules.len() && 0 <= t < pw.len() && rules[j].1 && #[trigger] rule_words(rules[j], pw[t].0).contains(k)
}

/// Whether a suffix rule of `sfx` that combines makes `k` of a word that a
/// prefix rule of `pfx` that combines makes of `stem`.
pub open spec fn cross_made(pfx: Seq<RuleView>, sfx: Seq<RuleView>, stem: Seq<char>, k: Seq<char>) -> bool {
    exists|i: int, j: int, w: Seq<char>|
        0 <= i < pfx.len() && 0 <= j < sfx.len() && pfx[i].1 && sfx[j].1 && #[trigger] rule_words(pfx[i], stem).contains(w)
            && #[trigger] rule_words(sfx[j], w).contains(k)
}

proof fn lemma_add_metas_from(m: WordMap, ws: Seq<Seq<char>>, x: MetaView, k: Seq<char>)
    requires
        add_metas(m, ws, x).contains_key(k),
    ensures
        m.contains_key(k) || ws.contains(k),
    decreases ws.len(),
{
    if ws.len() > 0 {
        if k == ws.last() {
            assert(ws[ws.len() - 1] == k);
        } else {
            lemma_add_metas_from(m, ws.drop_last(), x, k);
            if ws.drop_last().contains(k) {
                let i = choose|i: int| 0 <= i < ws.drop_last().len() && ws.drop_last()[i] == k;
                assert(ws[i] == k);
            }
        }
    }
}

proof fn lemma_add_meta_pairs_from(m: WordMap, ws: Seq<Seq<char>>, x: MetaView, y: MetaView, k: Seq<char>)
    requires
        add_meta_pairs(m, ws, x, y).contains_key(k),
    ensures
        m.contains_key(k) || ws.contains(k),
    decreases ws.len(),
{
    if ws.len() > 0 {
        if k == ws.last() {
            assert(ws[ws.len() - 1] == k);
        } else {
            lemma_add_meta_pairs_from(m, ws.drop_last(), x, y, k);
            if ws.drop_last().contains(k) {
                let i = choose|i: int| 0 <= i < ws.drop_last().len() && ws.drop_last()[i] == k;
                assert(ws[i] == k);
            }
        }
    }
}

/// Every word of the prefix pass is a word of the map it starts from, or a
/// word that one of its rules makes of the stem; every prefixed word it
/// keeps is made of the stem by one of its rules that combine.
proof fn lemma_prefix_from(m: WordMap, stem: Seq<char>, st: Seq<char>, rules: Seq<RuleView>)
    ensures
        forall|k: Seq<char>| #[trigger] prefix_pass(m, stem, st, rules).0.contains_key(k) ==> m.contains_key(k)
            || made_by(rules, stem, k),
        forall|t: int| 0 <= t < prefix_pass(m, stem, st, rules).1.len() ==> from_combining(
            rules,
            stem,
            (#[trigger] prefix_pass(m, stem, st, rules).1[t]).0,
        ),
    decreases rules.len(),
{
    if rules.len() > 0 {
        let prev_rules = rules.drop_last();
        let prev = prefix_pass(m, stem, st, prev_rules);
        let r = rules.last();
        let ws = rule_words(r, stem);
        let p = prefix_pass(m, stem, st, rules);
        lemma_prefix_from(m, stem, st, prev_rules);
        assert forall|k: Seq<char>| made_by(prev_rules, stem, k) implies made_by(rules, stem, k) by {
            let i = choose|i: int| 0 <= i < prev_rules.len() && #[trigger] rule_words(prev_rules[i], stem).contains(k);
            assert(prev_rules[i] == rules[i]);
        }
        assert forall|w: Seq<char>| from_combining(prev_rules, stem, w) implies from_combining(rules, stem, w) by {
            let i = choose|i: int| 0 <= i < prev_rules.len() && prev_rules[i].1 && #[trigger] rule_words(prev_rules[i], stem).contains(w);
            assert(prev_rules[i] == rules[i]);
        }
        assert forall|k: Seq<char>| #[trigger] p.0.contains_key(k) implies m.contains_key(k) || made_by(rules, stem, k) by {
            if prev.2 && ws.len() > 0 {
                lemma_add_metas_from(prev.0, ws, affix_meta(st, r), k);
                if ws.contains(k) {
                    assert(rule_words(rules[rules.len() - 1], stem).contains(k));
                } else {
                    assert(prev.0.contains_key(k));
                }
            } else {
                assert(prev.0.contains_key(k));
            }
        }
        assert forall|t: int| 0 <= t < p.1.len() implies from_combining(rules, stem, (#[trigger] p.1[t]).0) by {
            if prev.2 && ws.len() > 0 && r.1 {
                if t < prev.1.len() {
                    assert(p.1[t] == prev.1[t]);
                } else {
                    let u = t - prev.1.len();
                    assert(p.1[t] == tagged(ws, r)[u]);
                    assert(ws[u] == p.1[t].0);
                    assert(rule_words(rules[rules.len() - 1], stem).contains(p.1[t].0));
                }
            } else {
                assert(p.1[t] == prev.1[t]);
            }
        }
    }
}

/// Every word of the combining pass is a word of the map it starts from, or
/// a word that the rule makes of one of the prefixed words.
proof fn lemma_combine_from(m: WordMap, st: Seq<char>, r: RuleView, pw: Seq<Prefixed>, k: Seq<char>)
    requires
        combine_pass(m, st, r, pw).contains_key(k),
    ensures
        m.contains_key(k) || exists|t: int| 0 <= t < pw.len() && #[trigger] rule_words(r, pw[t].0).contains(k),
    decreases pw.len(),
{
    if pw.len() > 0 {
        let prev = combine_pass(m, st, r, pw.drop_last());
        lemma_add_meta_pairs_from(
            prev,
            rule_words(r, pw.last().0),
            affix_meta(st, r),
            affix_meta(st, pw.last().1),
            k,
        );
        if rule_words(r, pw.last().0).contains(k) {
            assert(rule_words(r, pw[pw.len() - 1].0).contains(k));
        } else {
            lemma_combine_from(m, st, r, pw.drop_last(), k);
            if !m.contains_key(k) {
                let t = choose|t: int| 0 <= t < pw.drop_last().len() && #[trigger] rule_words(r, pw.drop_last()[t].0).contains(k);
                assert(pw.drop_last()[t] == pw[t]);
            }
        }
    }
}

/// Every word of the suffix pass is a word of the map it starts from, a
/// word that one of its rules makes of the stem, or a word that one of its
/// rules that combine makes of a prefixed word.
proof fn lemma_suffix_from(m: WordMap, stem: Seq<char>, st: Seq<char>, pw: Seq<Prefixed>, rules: Seq<RuleView>, k: Seq<char>)
    requires
        suffix_pass(m, stem, st, pw, rules).0.contains_key(k),
    ensures
        m.contains_key(k) || made_by(rules, stem, k) || combined_from(rules, pw, k),
    decreases rules.len(),
{
    if rules.len() > 0 {
        let prev_rules = rules.drop_last();
        let prev = suffix_pass(m, stem, st, pw, prev_rules);
        let r = rules.last();
        let ws = rule_words(r, stem);
        let last = rules.len() - 1;
        assert(rules[last] == r);
        if prev.1 && ws.len() > 0 {
            let m2 = add_metas(prev.0, ws, affix_meta(st, r));
            let in_m2 = if r.1 {
                lemma_combine_from(m2, st, r, pw, k);
                if m2.contains_key(k) {
                    true
                } else {
                    let t = choose|t: int| 0 <= t < pw.len() && #[trigger] rule_words(r, pw[t].0).contains(k);
                    assert(rule_words(rules[last], pw[t].0).contains(k));
                    false
                }
            } else {
                true
            };
            if in_m2 {
                lemma_add_metas_from(prev.0, ws, affix_meta(st, r), k);
                if ws.contains(k) {
                    assert(rule_words(rules[last], stem).contains(k));
                    return;
                }
            } else {
                return;
            }
        }
        lemma_suffix_from(m, stem, st, pw, prev_rules, k);
        if made_by(prev_rules, stem, k) {
            let i = choose|i: int| 0 <= i < prev_rules.len() && #[trigger] rule_words(prev_rules[i], stem).contains(k);
            assert(prev_rules[i] == rules[i]);
        }
        if combined_from(prev_rules, pw, k) {
            let (j, t) = choose|j: int, t: int|
                0 <= j < prev_rules.len() && 0 <= t < pw.len() && prev_rules[j].1 && #[trigger] rule_words(prev_rules[j], pw[t].0).contains(k);
            assert(prev_rules[j] == rules[j]);
        }
    }
}

/// Words are made only by the rules of a stem, and only rules that combine
/// (cross product `Y`) are applied one after the other: every word of the
/// new map is a word of the old one, a word that one prefix rule or one
/// suffix rule makes of the stem, or a word that a suffix rule that
/// combines makes of a word that a prefix rule that combines makes of the
/// stem.
pub proof fn law_affixed_words_made(m: WordMap, stem: Seq<char>, st: Seq<char>, pfx: Seq<RuleView>, sfx: Seq<RuleView>, k: Seq<char>)
    requires
        affixed_word_map(m, stem, st, pfx, sfx).0.contains_key(k),
    ensures
        m.contains_key(k) || made_by(pfx, stem, k) || made_by(sfx, stem, k) || cross_made(pfx, sfx, stem, k),
{
    if !(pfx.len() == 0 && sfx.len() == 0) {
        let p = prefix_pass(m, stem, st, pfx);
        lemma_prefix_from(m, stem, st, pfx);
        if !p.2 {
            assert(p.0.contains_key(k));
        } else {
            lemma_suffix_from(p.0, stem, st, p.1, sfx, k);
            if p.0.contains_key(k) {
            } else if combined_from(sfx, p.1, k) {
                let (j, t) = choose|j: int, t: int|
                    0 <= j < sfx.len() && 0 <= t < p.1.len() && sfx[j].1 && #[trigger] rule_words(sfx[j], p.1[t].0).contains(k);
                let w = p.1[t].0;
                assert(from_combining(pfx, stem, w));
                let i = choose|i: int| 0 <= i < pfx.len() && pfx[i].1 && #[trigger] rule_words(pfx[i], stem).contains(w);
                assert(rule_words(pfx[i], stem).contains(w) && rule_words(sfx[j], w).contains(k));
            }
        }
    }
}

/* Splitting text into words */

/// A piece of text between two word boundaries, with its byte offset.
pub type Piece = (usize, Seq<char>);

/// The pieces between the word boundaries of `s` (Unicode Standard Annex
/// #29), each with its byte offset, as `split_word_bound_indices` of the
/// `unicode-segmentation` crate gives them.
pub uninterp spec fn word_bounds_of(s: Seq<char>) -> Seq<Piece>;

/// The values of a list of pieces.
pub open spec fn pieces_view(v: Seq<(usize, String)>) -> Seq<Piece> {
    v.map_values(|p: (usize, String)| (p.0, p.1@))
}

/// The text of a list of pieces, one after the other.
pub open spec fn pieces_text(ps: Seq<Piece>) -> Seq<char>
    decreases ps.len(),
{
    if ps.len() == 0 {
        Seq::empty()
    } else {
        pieces_text(ps.drop_last()) + ps.last().1
    }
}

/// The number of bytes of the UTF-8 encoding of `c`.
pub open spec fn utf8_width(c: char) -> nat {
    if (c as u32) < 0x80 {
        1
    } else if (c as u32) < 0x800 {
        2
    } else if (c as u32) < 0x10000 {
        3
    } else {
        4
    }
}

/// The number of bytes of the UTF-8 encoding of `s`.
pub open spec fn utf8_len(s: Seq<char>) -> nat
    decreases s.len(),
{
    if s.len() == 0 {
        0
    } else {
        utf8_len(s.drop_last()) + utf8_width(s.last())
    }
}

/// `UnicodeSegmentation::split_word_bound_indices`: the pieces of `s`
/// between its word boundaries, with their byte offsets.
///
/// Trusted: the pieces are what `word_bounds_of` names; as the crate
/// documents, none is empty, they make up `s` one after the other, and the
/// offset of each is the byte offset in `s` where it starts.
#[verifier::external_body]
fn split_word_bound_indices(s: &str) -> (r: Vec<(usize, String)>)
    ensures
        pieces_view(r@) == word_bounds_of(s@),
        forall|i: int| 0 <= i < r@.len() ==> (#[trigger] r@[i]).1@.len() > 0,
        pieces_text(pieces_view(r@)) == s@,
        forall|i: int| 0 <= i < r@.len() ==> (#[trigger] r@[i]).0 == utf8_len(
            pieces_text(pieces_view(r@).take(i)),
        ),
{
    s.split_word_bound_indices().map(|(i, w)| (i, w.to_owned())).collect()
}

/// Whether every character of `w` is alphanumeric or a hyphen.
pub open spec fn is_word_piece(w: Seq<char>) -> bool {
    forall|i: int| 0 <= i < w.len() ==> spec_is_alphanumeric(#[trigger] w[i]) || w[i] == '-'
}

/// The pieces of `ps` that are words, in order.
pub open spec fn word_pieces(ps: Seq<Piece>) -> Seq<Piece>
    decreases ps.len(),
{
    if ps.len() == 0 {
        Seq::empty()
    } else if is_word_piece(ps.last().1) {
        word_pieces(ps.drop_last()).push(ps.last())
    } else {
        word_pieces(ps.drop_last())
    }
}

/// Whether every character of `w` is alphanumeric or a hyphen.
fn word_piece(w: &str) -> (r: bool)
    ensures
        r == is_word_piece(w@),
{
    let cs = crate::text::chars_of(w);
    let mut i: usize = 0;
    while i < cs.len()
        invariant
            cs@ == w@,
            i <= cs@.len(),
            forall|k: int| 0 <= k < i ==> spec_is_alphanumeric(#[trigger] cs@[k]) || cs@[k] == '-',
        decreases cs@.len() - i,
    {
        let c = cs[i];
        if !(is_alphanumeric(c) || c == '-') {
            return false;
        }
        i += 1;
    }
    true
}

/// Keep the pieces that are words: those made of alphanumeric characters
/// and hyphens alone.
pub fn keep_word_pieces(bounds: &Vec<(usize, String)>) -> (r: Vec<(usize, String)>)
    ensures
        pieces_view(r@) == word_pieces(pieces_view(bounds@)),
{
    let ghost ps = pieces_view(bounds@);
    let mut out: Vec<(usize, String)> = Vec::new();
    let mut i: usize = 0;
    proof {
        assert(ps.take(0) =~= Seq::<Piece>::empty());
        assert(pieces_view(out@) =~= Seq::<Piece>::empty());
    }
    while i < bounds.len()
        invariant
            i <= bounds@.len(),
            ps == pieces_view(bounds@),
            pieces_view(out@) == word_pieces(ps.take(i as int)),
        decreases bounds@.len() - i,
    {
        proof {
            assert(ps.take(i + 1).drop_last() =~= ps.take(i as int));
            assert(ps.take(i + 1).last() == ps[i as int]);
            assert(ps[i as int] == (bounds@[i as int].0, bounds@[i as int].1@));
        }
        let (idx, w) = &bounds[i];
        if word_piece(w.as_str()) {
            let ghost before = out@;
            out.push((*idx, w.clone()));
            proof {
                assert(pieces_view(out@) =~= pieces_view(before).push(ps[i as int]));
            }
        }
        i += 1;
    }
    proof {
        assert(ps.take(i as int) =~= ps);
    }
    out
}

/// Whether no piece of `ps` is empty.
pub open spec fn nonempty_pieces(ps: Seq<Piece>) -> bool {
    forall|i: int| 0 <= i < ps.len() ==> (#[trigger] ps[i]).1.len() > 0
}

/// Whether the offsets of the pieces `ps` strictly increase.
pub open spec fn offsets_increase(ps: Seq<Piece>) -> bool {
    forall|i: int, j: int| 0 <= i < j < ps.len() ==> (#[trigger] ps[i]).0 < (#[trigger] ps[j]).0
}

proof fn lemma_utf8_concat(a: Seq<char>, b: Seq<char>)
    ensures
        utf8_len(a + b) == utf8_len(a) + utf8_len(b),
    decreases b.len(),
{
    if b.len() > 0 {
        lemma_utf8_concat(a, b.drop_last());
        assert((a + b).drop_last() =~= a + b.drop_last());
        assert((a + b).last() == b.last());
    } else {
        assert(a + b =~= a);
    }
}

/// The bytes of the first pieces grow with every further piece that is not
/// empty.
proof fn lemma_text_grows(ps: Seq<Piece>, i: int, j: int)
    requires
        nonempty_pieces(ps),
        0 <= i < j <= ps.len(),
    ensures
        utf8_len(pieces_text(ps.take(i))) < utf8_len(pieces_text(ps.take(j))),
    decreases j - i,
{
    let prev = ps.take(j - 1);
    assert(ps.take(j).drop_last() =~= prev);
    assert(ps.take(j).last() == ps[j - 1]);
    lemma_utf8_concat(pieces_text(prev), ps[j - 1].1);
    assert(ps[j - 1].1.len() > 0);
    assert(utf8_len(ps[j - 1].1) > 0) by {
        assert(ps[j - 1].1.drop_last() + seq![ps[j - 1].1.last()] =~= ps[j - 1].1);
    }
    if i < j - 1 {
        lemma_text_grows(ps, i, j - 1);
    }
}

/// The word pieces of `ps` are pieces of `ps`, in order, so they keep its
/// offsets increasing and its pieces non-empty; each is a word.
proof fn lemma_word_pieces(ps: Seq<Piece>)
    ensures
        forall|k: int| 0 <= k < word_pieces(ps).len() ==> exists|j: int| 0 <= j < ps.len() && ps[j] == #[trigger] word_pieces(ps)[k],
        forall|k: int| 0 <= k < word_pieces(ps).len() ==> is_word_piece(#[trigger] word_pieces(ps)[k].1),
        nonempty_pieces(ps) ==> nonempty_pieces(word_pieces(ps)),
        offsets_increase(ps) ==> offsets_increase(word_pieces(ps)),
    decreases ps.len(),
{
    if ps.len() > 0 {
        let prev = ps.drop_last();
        lemma_word_pieces(prev);
        let wp = word_pieces(ps);
        let wq = word_pieces(prev);
        assert forall|k: int| 0 <= k < wq.len() implies exists|j: int| 0 <= j < ps.len() && ps[j] == #[trigger] wq[k] by {
            let j = choose|j: int| 0 <= j < prev.len() && prev[j] == wq[k];
            assert(ps[j] == prev[j]);
        }
        if is_word_piece(ps.last().1) {
            assert forall|k: int| 0 <= k < wp.len() implies exists|j: int| 0 <= j < ps.len() && ps[j] == #[trigger] wp[k] by {
                if k < wq.len() {
                    assert(wp[k] == wq[k]);
                } else {
                    assert(wp[k] == ps[ps.len() - 1]);
                }
            }
            assert forall|k: int| 0 <= k < wp.len() implies is_word_piece(#[trigger] wp[k].1) by {
                if k < wq.len() {
                    assert(wp[k] == wq[k]);
                }
            }
            if nonempty_pieces(ps) {
                assert(nonempty_pieces(prev)) by {
                    assert forall|i: int| 0 <= i < prev.len() implies (#[trigger] prev[i]).1.len() > 0 by {
                        assert(prev[i] == ps[i]);
                    }
                }
                assert forall|i: int| 0 <= i < wp.len() implies (#[trigger] wp[i]).1.len() > 0 by {
                    if i < wq.len() {
                        assert(wp[i] == wq[i]);
                    }
                }
            }
            if offsets_increase(ps) {
                assert(offsets_increase(prev)) by {
                    assert forall|i: int, j: int| 0 <= i < j < prev.len() implies (#[trigger] prev[i]).0 < (#[trigger] prev[j]).0 by {
                        assert(prev[i] == ps[i] && prev[j] == ps[j]);
                    }
                }
                assert forall|i: int, j: int| 0 <= i < j < wp.len() implies (#[trigger] wp[i]).0 < (#[trigger] wp[j]).0 by {
                    assert(wp[i] == wq[i]);
                    if j < wq.len() {
                        assert(wp[j] == wq[j]);
                    } else {
                        let b = choose|b: int| 0 <= b < prev.len() && prev[b] == wq[i];
                        assert(ps[b] == prev[b]);
                        assert(wp[j] == ps[ps.len() - 1]);
                        assert(ps[b].0 < ps[ps.len() - 1].0);
                    }
                }
            }
        } else {
            assert(wp == wq);
            if nonempty_pieces(ps) {
                assert forall|i: int| 0 <= i < prev.len() implies (#[trigger] prev[i]).1.len() > 0 by {
                    assert(prev[i] == ps[i]);
                }
            }
            if offsets_increase(ps) {
                assert forall|i: int, j: int| 0 <= i < j < prev.len() implies (#[trigger] prev[i]).0 < (#[trigger] prev[j]).0 by {
                    assert(prev[i] == ps[i] && prev[j] == ps[j]);
                }
            }
        }
    }
}

/// Split `s` on its word boundaries and keep the pieces that are words,
/// each with its byte offset. No piece is empty, each is made of
/// alphanumeric characters and hyphens alone, and the offsets strictly
/// increase.
pub fn word_splitter(s: &str) -> (r: Vec<(usize, String)>)
    ensures
        pieces_view(r@) == word_pieces(word_bounds_of(s@)),
        pieces_text(word_bounds_of(s@)) == s@,
        forall|i: int| 0 <= i < word_bounds_of(s@).len() ==> (#[trigger] word_bounds_of(s@)[i]).0 == utf8_len(
            pieces_text(word_bounds_of(s@).take(i)),
        ),
        nonempty_pieces(word_bounds_of(s@)),
        nonempty_pieces(pieces_view(r@)),
        offsets_increase(pieces_view(r@)),
        forall|i: int| 0 <= i < r@.len() ==> is_word_piece((#[trigger] r@[i]).1@),
{
    let bounds = split_word_bound_indices(s);
    let ghost ps = word_bounds_of(s@);
    proof {
        assert forall|i: int| 0 <= i < ps.len() implies (#[trigger] ps[i]).0
            == utf8_len(pieces_text(ps.take(i))) by {
            assert(ps[i] == pieces_view(bounds@)[i]);
            assert(pieces_view(bounds@)[i].0 == bounds@[i].0);
        }
        assert forall|i: int| 0 <= i < ps.len() implies (#[trigger] ps[i]).1.len() > 0 by {
            assert(ps[i] == pieces_view(bounds@)[i]);
            assert(bounds@[i].1@.len() > 0);
        }
        assert forall|i: int, j: int| 0 <= i < j < ps.len() implies (#[trigger] ps[i]).0 < (#[trigger] ps[j]).0 by {
            lemma_text_grows(ps, i, j);
        }
        lemma_word_pieces(ps);
    }
    let r = keep_word_pieces(&bounds);
    proof {
        let wp = word_pieces(ps);
        assert forall|i: int| 0 <= i < r@.len() implies is_word_piece((#[trigger] r@[i]).1@) by {
            assert(pieces_view(r@)[i] == wp[i]);
        }
    }
    r
}

} // verus!

//! Affix rules as the dictionary applies them to stems.

use vstd::prelude::*;
use vstd::string::StringExecFns;

use crate::affix::{ParsedCfg, RuleType};
use crate::morph::{morphs_view, MorphInfo, MorphView};
use crate::parser_affix::{ParsedRule, ParsedRuleGroup};
use crate::re::{compile_re_pattern, condition_pattern, regex_compiles, regex_is_match, ReWrapper};
use crate::text::{chars_of, starts_with_at, string_from, string_of};

verus! {

/// A prefix or suffix rule with the patterns that implement it.
#[derive(Clone, Debug, PartialEq, Eq)]
pub struct AfxRule {
    kind: RuleType,
    can_combine: bool,
    patterns: Vec<AfxRulePattern>,
}

/// One way of applying a rule: the affix to add, the characters to strip
/// first and the condition the stem must meet.
#[derive(Clone, Debug, PartialEq, Eq)]
pub struct AfxRulePattern {
    affix: String,
    /// Condition to be met to apply this rule.
    condition: Option<ReWrapper>,
    /// Characters to strip
    strip: Option<String>,
    /// Associated morph info
    morph_info: Vec<MorphInfo>,
}

/// The value of an [`AfxRulePattern`].
pub struct PatternView {
    pub affix: Seq<char>,
    /// The pattern of the condition's expression
    pub condition: Option<Seq<char>>,
    pub strip: Option<Seq<char>>,
    pub morph: Seq<MorphView>,
}

/// The characters of an optional string.
pub open spec fn opt_chars(o: Option<String>) -> Option<Seq<char>> {
    match o {
        Some(s) => Some(s@),
        None => None,
    }
}

/// The pattern of an optional expression.
pub open spec fn opt_pattern(o: Option<ReWrapper>) -> Option<Seq<char>> {
    match o {
        Some(w) => Some(w.spec_pattern()),
        None => None,
    }
}

impl View for AfxRulePattern {
    type V = PatternView;

    closed spec fn view(&self) -> PatternView {
        PatternView {
            affix: self.affix@,
            condition: opt_pattern(self.condition),
            strip: opt_chars(self.strip),
            morph: morphs_view(self.morph_info@),
        }
    }
}

/// `s` without the leading `p`, if it starts with `p`.
pub open spec fn strip_front(s: Seq<char>, p: Seq<char>) -> Seq<char> {
    if p.len() <= s.len() && s.take(p.len() as int) == p {
        s.skip(p.len() as int)
    } else {
        s
    }
}

/// `s` without the trailing `p`, if it ends with `p`.
pub open spec fn strip_back(s: Seq<char>, p: Seq<char>) -> Seq<char> {
    if p.len() <= s.len() && s.skip(s.len() - p.len()) == p {
        s.take(s.len() - p.len())
    } else {
        s
    }
}

/// The word made from `s` by stripping `strip` and adding `affix`, at the
/// front for a prefix and at the back for a suffix.
pub open spec fn affixed(kind: RuleType, affix: Seq<char>, strip: Option<Seq<char>>, s: Seq<char>) -> Seq<
    char,
> {
    match kind {
        RuleType::Prefix => affix + match strip {
            Some(p) => strip_front(s, p),
            None => s,
        },
        RuleType::Suffix => {
            let kept = match strip {
                Some(p) => strip_back(s, p),
                None => s,
            };
            kept + affix
        },
    }
}

/// Whether a condition with expression pattern `cond` holds of `s`.
pub open spec fn condition_holds(cond: Option<Seq<char>>, s: Seq<char>) -> bool {
    match cond {
        Some(p) => regex_is_match(p, s),
        None => true,
    }
}

/// What one pattern makes of `s`: nothing if its condition fails.
pub open spec fn pattern_applied(p: PatternView, kind: RuleType, s: Seq<char>) -> Option<Seq<char>> {
    if condition_holds(p.condition, s) {
        Some(affixed(kind, p.affix, p.strip, s))
    } else {
        None
    }
}

/// What the first pattern of `ps` whose condition holds makes of `s`.
pub open spec fn first_applied(ps: Seq<PatternView>, kind: RuleType, s: Seq<char>) -> Option<Seq<char>>
    decreases ps.len(),
{
    if ps.len() == 0 {
        None
    } else {
        match pattern_applied(ps[0], kind, s) {
            Some(w) => Some(w),
            None => first_applied(ps.drop_first(), kind, s),
        }
    }
}

/// What every pattern of `ps` whose condition holds makes of `s`, in the
/// order of the patterns.
pub open spec fn all_applied(ps: Seq<PatternView>, kind: RuleType, s: Seq<char>) -> Seq<Seq<char>>
    decreases ps.len(),
{
    if ps.len() == 0 {
        Seq::empty()
    } else {
        let prev = all_applied(ps.drop_last(), kind, s);
        match pattern_applied(ps.last(), kind, s) {
            Some(w) => prev.push(w),
            None => prev,
        }
    }
}

/// The views of a list of patterns.
pub open spec fn patterns_view(ps: Seq<AfxRulePattern>) -> Seq<PatternView> {
    ps.map_values(|p: AfxRulePattern| p@)
}

/// A prefix pattern puts its affix in front of the stem, and the stem can be
/// recovered from the result by removing the affix and putting back what
/// was stripped.
pub proof fn law_prefix_undo(affix: Seq<char>, strip: Option<Seq<char>>, s: Seq<char>)
    ensures
        affixed(RuleType::Prefix, affix, strip, s).take(affix.len() as int) == affix,
        match strip {
            Some(p) => if p.len() <= s.len() && s.take(p.len() as int) == p {
                p + affixed(RuleType::Prefix, affix, strip, s).skip(affix.len() as int) == s
            } else {
                affixed(RuleType::Prefix, affix, strip, s).skip(affix.len() as int) == s
            },
            None => affixed(RuleType::Prefix, affix, strip, s).skip(affix.len() as int) == s,
        },
{
    let w = affixed(RuleType::Prefix, affix, strip, s);
    assert(w.take(affix.len() as int) =~= affix);
    match strip {
        Some(p) => {
            if p.len() <= s.len() && s.take(p.len() as int) == p {
                assert(p + w.skip(affix.len() as int) =~= s);
            } else {
                assert(w.skip(affix.len() as int) =~= s);
            }
        },
        None => {
            assert(w.skip(affix.len() as int) =~= s);
        },
    }
}

/// A suffix pattern puts its affix after the stem, and the stem can be
/// recovered from the result by removing the affix and putting back what
/// was stripped.
pub proof fn law_suffix_undo(affix: Seq<char>, strip: Option<Seq<char>>, s: Seq<char>)
    ensures
        ({
            let w = affixed(RuleType::Suffix, affix, strip, s);
            &&& w.skip(w.len() - affix.len()) == affix
            &&& match strip {
                Some(p) => if p.len() <= s.len() && s.skip(s.len() - p.len()) == p {
                    w.take(w.len() - affix.len()) + p == s
                } else {
                    w.take(w.len() - affix.len()) == s
                },
                None => w.take(w.len() - affix.len()) == s,
            }
        }),
{
    let w = affixed(RuleType::Suffix, affix, strip, s);
    assert(w.skip(w.len() - affix.len()) =~= affix);
    match strip {
        Some(p) => {
            if p.len() <= s.len() && s.skip(s.len() - p.len()) == p {
                assert(w.take(w.len() - affix.len()) + p =~= s);
            } else {
                assert(w.take(w.len() - affix.len()) =~= s);
            }
        },
        None => {
            assert(w.take(w.len() - affix.len()) =~= s);
        },
    }
}

/// Whether `t` ends with `key`.
fn ends_with(t: &[char], key: &[char]) -> (r: bool)
    ensures
        r == (key@.len() <= t@.len() && t@.skip(t@.len() - key@.len()) == key@),
{
    if key.len() > t.len() {
        return false;
    }
    let pos = t.len() - key.len();
    let r = starts_with_at(t, pos, key);
    proof {
        assert(t@.subrange(pos as int, pos + key@.len()) =~= t@.skip(pos as int));
    }
    r
}

impl AfxRulePattern {
    /// The pattern of a parsed rule.
    pub fn from_parsed(rule: &ParsedRule) -> (r: AfxRulePattern)
        ensures
            r@ == rule@,
    {
        AfxRulePattern {
            affix: rule.affix.clone(),
            condition: rule.condition.clone(),
            strip: rule.strip.clone(),
            morph_info: clone_morphs(&rule.morph_info),
        }
    }

    /// A pattern with affix `afx`, optionally stripping `strip`, with no
    /// condition and no morphs.
    pub fn new(afx: &str, strip: Option<&str>) -> (r: AfxRulePattern)
        ensures
            r@.affix == afx@,
            r@.condition is None,
            r@.strip == match strip {
                Some(s) => Some(s@),
                None => None::<Seq<char>>,
            },
            r@.morph.len() == 0,
    {
        let st = match strip {
            Some(s) => Some(s.to_owned()),
            None => None,
        };
        let r = AfxRulePattern { affix: afx.to_owned(), condition: None, strip: st, morph_info: Vec::new() };
        proof {
            assert(morphs_view(r.morph_info@).len() == 0);
        }
        r
    }

    /// Set the condition to `condition`, compiled for a rule of kind `kind`.
    pub fn set_pattern(&mut self, condition: &str, kind: RuleType) -> (r: Result<(), regex::Error>)
        ensures
            final(self)@.affix == old(self)@.affix,
            final(self)@.strip == old(self)@.strip,
            final(self)@.morph == old(self)@.morph,
            r is Ok ==> (condition@ == "."@ ==> final(self)@.condition is None) && (condition@
                != "."@ ==> final(self)@.condition == Some(condition_pattern(kind, condition@))),
            r is Ok <==> (condition@ == "."@ || regex_compiles(condition_pattern(kind, condition@))),
            r is Err ==> final(self)@ == old(self)@,
    {
        match compile_re_pattern(condition, kind) {
            Ok(c) => {
                self.condition = c;
                Ok(())
            },
            Err(e) => Err(e),
        }
    }

    /// Whether the condition holds of `s`.
    pub fn check_condition(&self, s: &str) -> (r: bool)
        ensures
            r == condition_holds(self@.condition, s@),
    {
        match &self.condition {
            Some(re) => re.is_match(s),
            None => true,
        }
    }

    /// Apply this pattern to `s` if its condition holds.
    pub fn apply_pattern(&self, s: &str, kind: RuleType) -> (r: Option<String>)
        ensures
            match r {
                Some(w) => pattern_applied(self@, kind, s@) == Some(w@),
                None => pattern_applied(self@, kind, s@) is None,
            },
    {
        if !self.check_condition(s) {
            return None;
        }
        let t = chars_of(s);
        match kind {
            RuleType::Prefix => {
                let mut working = self.affix.clone();
                let rest = match &self.strip {
                    Some(sc) => {
                        let p = chars_of(sc.as_str());
                        if p.len() <= t.len() && starts_with_at(t.as_slice(), 0, p.as_slice()) {
                            proof {
                                assert(t@.subrange(0, p@.len() as int) =~= t@.take(p@.len() as int));
                                assert(t@.subrange(p@.len() as int, t@.len() as int) =~= t@.skip(p@.len() as int));
                            }
                            string_from(t.as_slice(), p.len(), t.len())
                        } else {
                            proof {
                                if p@.len() <= t@.len() {
                                    assert(t@.subrange(0, p@.len() as int) =~= t@.take(p@.len() as int));
                                }
                            }
                            string_of(t.as_slice())
                        }
                    },
                    None => string_of(t.as_slice()),
                };
                working.append(rest.as_str());
                Some(working)
            },
            RuleType::Suffix => {
                let mut working = match &self.strip {
                    Some(sc) => {
                        let p = chars_of(sc.as_str());
                        if ends_with(t.as_slice(), p.as_slice()) {
                            let w = string_from(t.as_slice(), 0, t.len() - p.len());
                            proof {
                                assert(t@.subrange(0, t@.len() - p@.len()) =~= t@.take(t@.len() - p@.len()));
                            }
                            w
                        } else {
                            string_of(t.as_slice())
                        }
                    },
                    None => string_of(t.as_slice()),
                };
                working.append(self.affix.as_str());
                Some(working)
            },
        }
    }
}

/// The condition of pattern `i` of a rule that [`AfxRule::new`] builds with
/// conditions `patterns` for kind `kind`: that of the `i`-th text, compiled
/// for `kind`, if there is one, it is not `.` and it compiles; else none.
pub open spec fn new_condition(kind: RuleType, patterns: Seq<&str>, i: int) -> Option<Seq<char>> {
    if i < patterns.len() && patterns[i]@ != "."@ && regex_compiles(condition_pattern(kind, patterns[i]@)) {
        Some(condition_pattern(kind, patterns[i]@))
    } else {
        None
    }
}

impl AfxRule {
    pub closed spec fn spec_kind(&self) -> RuleType {
        self.kind
    }

    pub closed spec fn spec_can_combine(&self) -> bool {
        self.can_combine
    }

    pub closed spec fn spec_patterns(&self) -> Seq<PatternView> {
        patterns_view(self.patterns@)
    }

    /// A rule whose patterns add the affixes `affixes` in turn; the first
    /// patterns get the conditions `patterns`, compiled for `kind`, and a
    /// condition that does not compile is left out.
    pub fn new(
        kind: RuleType,
        affixes: &[&str],
        patterns: &[&str],
        can_combine: bool,
        strip: Option<&str>,
        condition: Option<&str>,
    ) -> (r: AfxRule)
        requires
            patterns@.len() <= affixes@.len(),
        ensures
            r.spec_kind() == kind,
            r.spec_can_combine() == can_combine,
            r.spec_patterns().len() == affixes@.len(),
            forall|i: int| 0 <= i < affixes@.len() ==> (#[trigger] r.spec_patterns()[i]).affix
                == affixes@[i]@ && r.spec_patterns()[i].strip is None,
            forall|i: int| 0 <= i < affixes@.len() ==> (#[trigger] r.spec_patterns()[i]).condition
                == new_condition(kind, patterns@, i),
    {
        let mut ps: Vec<AfxRulePattern> = Vec::new();
        let mut i: usize = 0;
        while i < affixes.len()
            invariant
                i <= affixes@.len(),
                ps@.len() == i,
                forall|k: int| 0 <= k < i ==> (#[trigger] ps@[k])@.affix == affixes@[k]@
                    && ps@[k]@.strip is None && ps@[k]@.condition is None,
            decreases affixes@.len() - i,
        {
            ps.push(AfxRulePattern::new(affixes[i], None));
            i += 1;
        }
        let mut j: usize = 0;
        while j < patterns.len()
            invariant
                patterns@.len() <= affixes@.len(),
                j <= patterns@.len(),
                ps@.len() == affixes@.len(),
                forall|k: int| 0 <= k < affixes@.len() ==> (#[trigger] ps@[k])@.affix == affixes@[k]@
                    && ps@[k]@.strip is None,
                forall|k: int| 0 <= k < j ==> (#[trigger] ps@[k])@.condition == new_condition(kind, patterns@, k),
                forall|k: int| j <= k < affixes@.len() ==> (#[trigger] ps@[k])@.condition is None,
            decreases patterns@.len() - j,
        {
            let mut p = ps[j].clone_pattern();
            let _ = p.set_pattern(patterns[j], kind);
            ps.set(j, p);
            j += 1;
        }
        let r = AfxRule { kind, can_combine, patterns: ps };
        proof {
            assert forall|i: int| 0 <= i < affixes@.len() implies (#[trigger] r.spec_patterns()[i]).affix
                == affixes@[i]@ && r.spec_patterns()[i].strip is None && r.spec_patterns()[i].condition
                == new_condition(kind, patterns@, i) by {
                assert(r.spec_patterns()[i] == r.patterns@[i]@);
            }
        }
        r
    }

    /// Turn a parsed rule group into a rule.
    pub fn from_parsed_group(cfg: &ParsedCfg, group: &ParsedRuleGroup) -> (r: AfxRule)
        ensures
            r.spec_kind() == group.kind,
            r.spec_can_combine() == group.can_combine,
            r.spec_patterns() == group.spec_rules(),
    {
        let mut patterns: Vec<AfxRulePattern> = Vec::new();
        let mut i: usize = 0;
        while i < group.rules.len()
            invariant
                i <= group.rules@.len(),
                patterns_view(patterns@) == group.spec_rules().take(i as int),
            decreases group.rules@.len() - i,
        {
            let rule = &group.rules[i];
            let p = AfxRulePattern {
                affix: rule.affix.clone(),
                condition: rule.condition.clone(),
                strip: rule.strip.clone(),
                morph_info: clone_morphs(&rule.morph_info),
            };
            let ghost before = patterns@;
            patterns.push(p);
            proof {
                assert(group.spec_rules()[i as int] == group.rules@[i as int]@);
                assert(patterns_view(patterns@) =~= patterns_view(before).push(p@));
                assert(group.spec_rules().take(i + 1) =~= group.spec_rules().take(i as int).push(
                    group.spec_rules()[i as int],
                ));
            }
            i += 1;
        }
        proof {
            assert(group.spec_rules().take(i as int) =~= group.spec_rules());
        }
        AfxRule { kind: group.kind, can_combine: group.can_combine, patterns }
    }

    /// Whether this is a prefix rule.
    pub fn is_pfx(&self) -> (r: bool)
        ensures
            r == (self.spec_kind() == RuleType::Prefix),
    {
        self.kind == RuleType::Prefix
    }

    /// Whether the rule counts as a suffix rule. The answer is that of
    /// [`AfxRule::is_pfx`]: true for a prefix rule.
    pub fn is_sfx(&self) -> (r: bool)
        ensures
            r == (self.spec_kind() == RuleType::Prefix),
    {
        self.kind == RuleType::Prefix
    }

    /// Whether this rule combines with rules of the other kind.
    pub fn can_combine(&self) -> (r: bool)
        ensures
            r == self.spec_can_combine(),
    {
        self.can_combine
    }

    /// Apply every pattern whose condition holds of `stem`: the words they
    /// make, in the order of the patterns.
    pub fn apply_patterns(&self, stem: &str) -> (r: Vec<String>)
        ensures
            r@.map_values(|x: String| x@) == all_applied(self.spec_patterns(), self.spec_kind(), stem@),
    {
        let ghost ps = self.spec_patterns();
        let mut out: Vec<String> = Vec::new();
        let mut i: usize = 0;
        proof {
            assert(ps.take(0) =~= Seq::<PatternView>::empty());
            assert(out@.map_values(|x: String| x@) =~= Seq::<Seq<char>>::empty());
        }
        while i < self.patterns.len()
            invariant
                i <= self.patterns@.len(),
                ps == self.spec_patterns(),
                ps.len() == self.patterns@.len(),
                out@.map_values(|x: String| x@) == all_applied(ps.take(i as int), self.kind, stem@),
            decreases self.patterns@.len() - i,
        {
            proof {
                assert(ps.take(i + 1).drop_last() =~= ps.take(i as int));
                assert(ps.take(i + 1).last() == self.patterns@[i as int]@);
            }
            let ghost before = out@;
            match self.patterns[i].apply_pattern(stem, self.kind) {
                Some(w) => {
                    out.push(w);
                    proof {
                        assert(out@.map_values(|x: String| x@) =~= before.map_values(|x: String| x@).push(
                            out@[out@.len() - 1]@,
                        ));
                    }
                },
                None => {},
            }
            i += 1;
        }
        proof {
            assert(ps.take(i as int) =~= ps);
        }
        out
    }

    /// Apply the first pattern whose condition holds of `stem`.
    pub fn apply_pattern(&self, stem: &str) -> (r: Option<String>)
        ensures
            match r {
                Some(w) => first_applied(self.spec_patterns(), self.spec_kind(), stem@) == Some(w@),
                None => first_applied(self.spec_patterns(), self.spec_kind(), stem@) is None,
            },
    {
        let mut i: usize = 0;
        proof {
            assert(self.spec_patterns().skip(0) =~= self.spec_patterns());
        }
        while i < self.patterns.len()
            invariant
                i <= self.patterns@.len(),
                first_applied(self.spec_patterns(), self.spec_kind(), stem@) == first_applied(
                    self.spec_patterns().skip(i as int),
                    self.kind,
                    stem@,
                ),
            decreases self.patterns@.len() - i,
        {
            proof {
                assert(self.spec_patterns().skip(i as int)[0] == self.patterns@[i as int]@);
                assert(self.spec_patterns().skip(i as int).drop_first() =~= self.spec_patterns().skip(i + 1));
            }
            match self.patterns[i].apply_pattern(stem, self.kind) {
                Some(w) => {
                    return Some(w);
                },
                None => {},
            }
            i += 1;
        }
        None
    }
}

impl AfxRulePattern {
    fn clone_pattern(&self) -> (r: AfxRulePattern)
        ensures
            r@ == self@,
    {
        let condition = match &self.condition {
            Some(c) => Some(c.clone()),
            None => None,
        };
        let strip = match &self.strip {
            Some(s) => Some(s.clone()),
            None => None,
        };
        AfxRulePattern { affix: self.affix.clone(), condition, strip, morph_info: clone_morphs(&self.morph_info) }
    }
}

/// A copy of a list of morphs.
pub fn clone_morphs(v: &Vec<MorphInfo>) -> (r: Vec<MorphInfo>)
    ensures
        morphs_view(r@) == morphs_view(v@),
{
    let mut out: Vec<MorphInfo> = Vec::new();
    let mut i: usize = 0;
    while i < v.len()
        invariant
            i <= v@.len(),
            morphs_view(out@) == morphs_view(v@).take(i as int),
        decreases v@.len() - i,
    {
        let m = v[i].clone();
        let ghost before = out@;
        out.push(m);
        proof {
            assert(morphs_view(out@) =~= morphs_view(before).push(m@));
            assert(morphs_view(v@).take(i + 1) =~= morphs_view(v@).take(i as int).push(v@[i as int]@));
        }
        i += 1;
    }
    proof {
        assert(morphs_view(v@).take(i as int) =~= morphs_view(v@));
    }
    out
}

} // verus!

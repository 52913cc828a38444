//! Parsed affix rule groups (`PFX` and `SFX` tables).

use vstd::prelude::*;

use crate::affix::RuleType;
use crate::error::{Error, ParseErrorKind};
use crate::morph::{morphs_view, MorphInfo};
use crate::re::{compile_re_pattern, condition_pattern, regex_compiles, ReWrapper};
use crate::dict::rule::{
    condition_holds, first_applied, opt_chars, opt_pattern, pattern_applied, AfxRulePattern, PatternView,
};

verus! {

/// A prefix or suffix rule group as the affix file states it: the flag that
/// names it, its kind, whether it combines with rules of the other kind,
/// and its rules.
#[derive(Clone, Debug, PartialEq, Eq)]
pub struct ParsedRuleGroup {
    /// Identifier of this affix, usually an uppercase letter
    pub flag: String,
    /// Prefix or suffix
    pub kind: RuleType,
    /// Whether or not this can be combined with the opposite affix
    pub can_combine: bool,
    /// Actual rules for replacing
    pub rules: Vec<ParsedRule>,
}

/// One rule of a rule group.
#[derive(Clone, Debug, PartialEq, Eq)]
pub struct ParsedRule {
    /// Affix to be added
    pub affix: String,
    /// Characters to remove from the beginning or end
    pub strip: Option<String>,
    /// Expression for when this rule applies; `None` stands for `.`, which
    /// always applies
    pub condition: Option<ReWrapper>,
    /// Morphological information
    pub morph_info: Vec<MorphInfo>,
}

impl View for ParsedRule {
    type V = PatternView;

    open spec fn view(&self) -> PatternView {
        PatternView {
            affix: self.affix@,
            condition: opt_pattern(self.condition),
            strip: opt_chars(self.strip),
            morph: morphs_view(self.morph_info@),
        }
    }
}

impl ParsedRuleGroup {
    /// The views of the rules.
    pub open spec fn spec_rules(&self) -> Seq<PatternView> {
        self.rules@.map_values(|r: ParsedRule| r@)
    }

    /// A rule group.
    pub fn new(flag: &str, kind: RuleType, can_combine: bool, rules: Vec<ParsedRule>) -> (r: ParsedRuleGroup)
        ensures
            r.flag@ == flag@,
            r.kind == kind,
            r.can_combine == can_combine,
            r.rules@ == rules@,
    {
        ParsedRuleGroup { flag: flag.to_owned(), kind, can_combine, rules }
    }
}

/// The strip text that an affix table row gives: `0` stands for none.
pub open spec fn strip_of(strip: Seq<char>) -> Option<Seq<char>> {
    if strip == "0"@ {
        None
    } else {
        Some(strip)
    }
}

/// The expression pattern that an affix table condition gives: `.` stands
/// for none.
pub open spec fn condition_of(kind: RuleType, condition: Seq<char>) -> Option<Seq<char>> {
    if condition == "."@ {
        None
    } else {
        Some(condition_pattern(kind, condition))
    }
}

fn opt_string(s: Option<&str>) -> (r: Option<String>)
    ensures
        opt_chars(r) == match s {
            Some(x) => Some(x@),
            None => None::<Seq<char>>,
        },
{
    match s {
        Some(x) => Some(x.to_owned()),
        None => None,
    }
}

impl ParsedRule {
    /// A rule whose condition, if any, is compiled for `kind`.
    pub fn new(
        kind: RuleType,
        affix: &str,
        strip: Option<&str>,
        condition: Option<&str>,
        morph_info: Vec<MorphInfo>,
    ) -> (r: Result<ParsedRule, Error>)
        ensures
            match r {
                Ok(p) => p@.affix == affix@ && p@.strip == (match strip {
                    Some(x) => Some(x@),
                    None => None::<Seq<char>>,
                }) && p@.morph == morphs_view(morph_info@) && p@.condition == match condition {
                    Some(c) => condition_of(kind, c@),
                    None => None::<Seq<char>>,
                },
                Err(e) => e is Regex && (condition matches Some(c) && c@ != "."@ && !regex_compiles(
                    condition_pattern(kind, c@),
                )),
            },
    {
        let cond_re = match condition {
            Some(c) => match compile_re_pattern(c, kind) {
                Ok(re) => re,
                Err(e) => {
                    return Err(Error::Regex(e));
                },
            },
            None => None,
        };
        Ok(ParsedRule { strip: opt_string(strip), affix: affix.to_owned(), condition: cond_re, morph_info })
    }

    /// A rule whose condition, if any, is compiled as written.
    pub fn new_raw_re(
        kind: RuleType,
        affix: &str,
        strip: Option<&str>,
        condition: Option<&str>,
        morph_info: Vec<MorphInfo>,
    ) -> (r: Result<ParsedRule, Error>)
        ensures
            match r {
                Ok(p) => p@.affix == affix@ && p@.strip == (match strip {
                    Some(x) => Some(x@),
                    None => None::<Seq<char>>,
                }) && p@.morph == morphs_view(morph_info@) && p@.condition == match condition {
                    Some(c) => Some(c@),
                    None => None::<Seq<char>>,
                },
                Err(e) => e is Regex && (condition matches Some(c) && !regex_compiles(c@)),
            },
    {
        let cond_re = match condition {
            Some(c) => match ReWrapper::new(c) {
                Ok(re) => Some(re),
                Err(e) => {
                    return Err(Error::Regex(e));
                },
            },
            None => None,
        };
        Ok(ParsedRule { strip: opt_string(strip), affix: affix.to_owned(), condition: cond_re, morph_info })
    }

    /// A rule from the fields of an affix table row: `strip` `0` strips
    /// nothing and `condition` `.` always holds.
    pub fn new_parse(
        kind: RuleType,
        affix: &str,
        strip: &str,
        condition: &str,
        morph_info: Vec<MorphInfo>,
    ) -> (r: Result<ParsedRule, ParseErrorKind>)
        ensures
            match r {
                Ok(p) => p@.affix == affix@ && p@.strip == strip_of(strip@) && p@.morph
                    == morphs_view(morph_info@) && p@.condition == condition_of(kind, condition@)
                    && (condition@ != "."@ ==> regex_compiles(condition_pattern(kind, condition@))),
                Err(e) => e is Regex && condition@ != "."@ && !regex_compiles(
                    condition_pattern(kind, condition@),
                ),
            },
    {
        let cond_re = match compile_re_pattern(condition, kind) {
            Ok(re) => re,
            Err(e) => {
                return Err(ParseErrorKind::Regex(e));
            },
        };
        let strip_chars = if crate::text::str_eq(strip, "0") {
            None
        } else {
            Some(strip.to_owned())
        };
        Ok(ParsedRule { strip: strip_chars, affix: affix.to_owned(), condition: cond_re, morph_info })
    }
}

/// A prefix or suffix rule group: the name that the rule-set API uses.
pub type RuleGroup = ParsedRuleGroup;

/// One rule of a group: the name that the rule-set API uses.
pub type AffixRule = ParsedRule;

impl ParsedRule {
    /// Whether the condition of the rule holds of `s`.
    pub fn check_condition(&self, s: &str) -> (r: bool)
        ensures
            r == condition_holds(self@.condition, s@),
    {
        match &self.condition {
            Some(re) => re.is_match(s),
            None => true,
        }
    }

    /// Apply this rule to `s`, as a rule of kind `kind`, if its condition
    /// holds: strip what it strips and add its affix.
    pub fn apply_pattern(&self, s: &str, kind: RuleType) -> (r: Option<String>)
        ensures
            match r {
                Some(w) => pattern_applied(self@, kind, s@) == Some(w@),
                None => pattern_applied(self@, kind, s@) is None,
            },
    {
        AfxRulePattern::from_parsed(self).apply_pattern(s, kind)
    }
}

impl ParsedRuleGroup {
    /// Apply the first rule of the group whose condition holds of `stem`;
    /// `None` if no rule applies. Prefixes and suffixes are not combined
    /// here.
    pub fn apply_pattern(&self, stem: &str) -> (r: Option<String>)
        ensures
            match r {
                Some(w) => first_applied(self.spec_rules(), self.kind, stem@) == Some(w@),
                None => first_applied(self.spec_rules(), self.kind, stem@) is None,
            },
    {
        let ghost ps = self.spec_rules();
        let mut i: usize = 0;
        proof {
            assert(ps.skip(0) =~= ps);
        }
        while i < self.rules.len()
            invariant
                i <= self.rules@.len(),
                ps == self.spec_rules(),
                ps.len() == self.rules@.len(),
                first_applied(ps, self.kind, stem@) == first_applied(ps.skip(i as int), self.kind, stem@),
            decreases self.rules@.len() - i,
        {
            proof {
                assert(ps.skip(i as int)[0] == self.rules@[i as int]@);
                assert(ps.skip(i as int).drop_first() =~= ps.skip(i + 1));
            }
            match self.rules[i].apply_pattern(stem, self.kind) {
                Some(w) => {
                    return Some(w);
                },
                None => {},
            }
            i += 1;
        }
        None
    }
}

} // verus!

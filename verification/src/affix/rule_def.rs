//! Prefix and suffix rules as the token reader of affix files builds them:
//! every rule keeps the text of its condition beside the compiled
//! expression.

use vstd::prelude::*;
use vstd::std_specs::cmp::PartialEqSpecImpl;

use super::tokens::TokenType;
use super::types::table_view;
use super::RuleType;
use crate::dict::rule::{condition_holds, opt_chars, pattern_applied, AfxRulePattern, PatternView};
use crate::errors::AffixError;
use crate::parser_affix::node::strings_view;
use crate::parser_affix::types::condition_of;
use crate::re::{compile_re_pattern, condition_pattern, regex_compiles, ReWrapper};
use crate::text::{push_str, str_eq};

verus! {

/// One rule of a prefix or suffix table.
#[derive(Debug)]
pub struct AffixRuleDef {
    /// Prefix or suffix
    pub atype: RuleType,
    /// Characters to remove before the affix is added
    pub stripping_chars: Option<String>,
    /// The affix to add
    pub affix: String,
    /// Regex-based rule for when this rule is true
    pub condition: String,
    /// Morphological fields of the rule
    pub morph_info: Vec<String>,
    /// Compiled version of condition
    pub condition_re: Option<ReWrapper>,
    /// Whether the condition is `.`, which always holds
    pub condition_always_true: bool,
}

/// A prefix or suffix rule: its flag, its kind, whether it combines with
/// rules of the other kind, and the ways it can apply.
#[derive(Debug, PartialEq, Eq)]
pub struct Rule {
    /// Identifier of this affix, usually an uppercase letter
    pub key: String,
    /// Prefix or suffix
    pub atype: RuleType,
    /// Whether or not this can be combined with the opposite affix
    pub combine_pfx_sfx: bool,
    /// Actual rules for replacing
    pub rules: Vec<AffixRuleDef>,
}

/// The strip text of a table row: empty or `0` strips nothing.
pub open spec fn def_strip(s: Seq<char>) -> Option<Seq<char>> {
    if s == ""@ || s == "0"@ {
        None
    } else {
        Some(s)
    }
}

/// Whether the condition `c` of a rule of kind `kind` can be compiled: it
/// is `.`, or its expression compiles.
pub open spec fn cond_ok(kind: RuleType, c: Seq<char>) -> bool {
    c == "."@ || regex_compiles(condition_pattern(kind, c))
}

impl AffixRuleDef {
    /// Whether the rule can be checked: its condition is `.`, or an
    /// expression was compiled for it.
    pub open spec fn ready(&self) -> bool {
        self.condition_always_true || self.condition_re is Some
    }

    /// The pattern of the expression that the rule checks; none when the
    /// condition always holds.
    pub open spec fn checked_condition(&self) -> Option<Seq<char>> {
        if self.condition_always_true {
            None
        } else {
            match self.condition_re {
                Some(w) => Some(w.spec_pattern()),
                None => None,
            }
        }
    }

    /// Whether what was compiled agrees with the condition as written.
    pub open spec fn compiled(&self) -> bool {
        &&& self.condition_always_true == (self.condition@ == "."@)
        &&& self.ready()
        &&& self.checked_condition() == condition_of(self.atype, self.condition@)
    }

    /// The pattern that the rule applies.
    pub open spec fn pattern(&self) -> PatternView {
        PatternView {
            affix: self.affix@,
            condition: self.checked_condition(),
            strip: opt_chars(self.stripping_chars),
            morph: Seq::empty(),
        }
    }

    /// A rule from the fields of a table row: `strip_text` empty or `0`
    /// strips nothing, and `condition_text` `.` always holds.
    pub fn from_table_creation(
        atype: RuleType,
        strip_text: &str,
        affix_text: &str,
        condition_text: &str,
        morph_info: Vec<String>,
    ) -> (r: AffixRuleDef)
        requires
            cond_ok(atype, condition_text@),
        ensures
            r.atype == atype,
            opt_chars(r.stripping_chars) == def_strip(strip_text@),
            r.affix@ == affix_text@,
            r.condition@ == condition_text@,
            r.morph_info@ == morph_info@,
            r.compiled(),
    {
        let stripping_chars = if str_eq(strip_text, "") || str_eq(strip_text, "0") {
            None
        } else {
            Some(strip_text.to_owned())
        };
        let mut ruledef = AffixRuleDef {
            atype,
            stripping_chars,
            affix: affix_text.to_owned(),
            condition: condition_text.to_owned(),
            morph_info,
            condition_re: None,
            condition_always_true: false,
        };
        ruledef.compile_re();
        ruledef
    }

    /// Compile the condition: `.` needs no expression; any other condition
    /// becomes an expression anchored at the start of a prefix's word or at
    /// the end of a suffix's.
    pub fn compile_re(&mut self)
        requires
            cond_ok(old(self).atype, old(self).condition@),
        ensures
            final(self).atype == old(self).atype,
            final(self).stripping_chars == old(self).stripping_chars,
            final(self).affix == old(self).affix,
            final(self).condition == old(self).condition,
            final(self).morph_info == old(self).morph_info,
            old(self).condition@ == "."@ ==> final(self).condition_re == old(self).condition_re,
            final(self).compiled(),
    {
        if str_eq(self.condition.as_str(), ".") {
            self.condition_always_true = true;
            return;
        }
        self.condition_always_true = false;
        let compiled = compile_re_pattern(self.condition.as_str(), self.atype);
        match compiled {
            Ok(Some(w)) => {
                self.condition_re = Some(w);
            },
            _ => {},
        }
    }

    /// Whether the condition holds of `s`.
    pub fn check_condition(&self, s: &str) -> (r: bool)
        requires
            self.ready(),
        ensures
            r == condition_holds(self.checked_condition(), s@),
    {
        if self.condition_always_true {
            return true;
        }
        match &self.condition_re {
            Some(re) => re.is_match(s),
            None => true,
        }
    }

    /// Apply the rule to `s` if its condition holds: strip what it strips
    /// and add its affix.
    pub fn apply_pattern(&self, s: &str) -> (r: Option<String>)
        requires
            self.ready(),
        ensures
            match r {
                Some(w) => pattern_applied(self.pattern(), self.atype, s@) == Some(w@),
                None => pattern_applied(self.pattern(), self.atype, s@) is None,
            },
    {
        if !self.check_condition(s) {
            return None;
        }
        let strip = match &self.stripping_chars {
            Some(sc) => Some(sc.as_str()),
            None => None,
        };
        let p = AfxRulePattern::new(self.affix.as_str(), strip);
        p.apply_pattern(s, self.atype)
    }
}

/// Whether two lists of strings hold the same strings.
fn strings_eq(a: &Vec<String>, b: &Vec<String>) -> (r: bool)
    ensures
        r == (strings_view(a@) == strings_view(b@)),
{
    if a.len() != b.len() {
        proof {
            assert(strings_view(a@).len() != strings_view(b@).len());
        }
        return false;
    }
    let mut i: usize = 0;
    while i < a.len()
        invariant
            i <= a@.len(),
            a@.len() == b@.len(),
            forall|j: int| 0 <= j < i ==> (#[trigger] a@[j])@ == b@[j]@,
        decreases a@.len() - i,
    {
        if !str_eq(a[i].as_str(), b[i].as_str()) {
            proof {
                assert(strings_view(a@)[i as int] != strings_view(b@)[i as int]);
            }
            return false;
        }
        i += 1;
    }
    proof {
        assert(strings_view(a@) =~= strings_view(b@));
    }
    true
}

/// Whether two optional strings are equal.
fn opt_str_eq(a: &Option<String>, b: &Option<String>) -> (r: bool)
    ensures
        r == (opt_chars(*a) == opt_chars(*b)),
{
    match (a, b) {
        (Some(x), Some(y)) => str_eq(x.as_str(), y.as_str()),
        (None, None) => true,
        _ => false,
    }
}

impl PartialEq for AffixRuleDef {
    fn eq(&self, other: &Self) -> (r: bool) {
        self.atype == other.atype && opt_str_eq(&self.stripping_chars, &other.stripping_chars)
            && str_eq(self.affix.as_str(), other.affix.as_str()) && str_eq(
            self.condition.as_str(),
            other.condition.as_str(),
        ) && strings_eq(&self.morph_info, &other.morph_info)
    }
}

impl PartialEqSpecImpl for AffixRuleDef {
    open spec fn obeys_eq_spec() -> bool {
        true
    }

    /// Two rules are equal when their kinds, strip texts, affixes,
    /// conditions and morphological fields are; what was compiled is not
    /// compared.
    open spec fn eq_spec(&self, other: &AffixRuleDef) -> bool {
        &&& self.atype == other.atype
        &&& opt_chars(self.stripping_chars) == opt_chars(other.stripping_chars)
        &&& self.affix@ == other.affix@
        &&& self.condition@ == other.condition@
        &&& strings_view(self.morph_info@) == strings_view(other.morph_info@)
    }
}

impl Eq for AffixRuleDef {
}

/// What the first rule of `ds` that applies makes of `s`, each rule
/// applied as its own kind.
pub open spec fn defs_applied(ds: Seq<AffixRuleDef>, s: Seq<char>) -> Option<Seq<char>>
    decreases ds.len(),
{
    if ds.len() == 0 {
        None
    } else {
        match pattern_applied(ds[0].pattern(), ds[0].atype, s) {
            Some(w) => Some(w),
            None => defs_applied(ds.drop_first(), s),
        }
    }
}

/// The kind of rule that a token type names, if it names one.
pub open spec fn token_kind(t: TokenType) -> Option<RuleType> {
    match t {
        TokenType::Prefix => Some(RuleType::Prefix),
        TokenType::Suffix => Some(RuleType::Suffix),
        _ => None,
    }
}

/// The rows `t[..=i]` after the first all have at least four items.
pub open spec fn long_rows(t: Seq<Seq<Seq<char>>>, i: int) -> bool {
    forall|j: int| 1 <= j <= i ==> (#[trigger] t[j]).len() >= 4
}

/// The condition of row `i` can be compiled, if the reading of the table
/// gets that far.
pub open spec fn row_ready(kind: RuleType, t: Seq<Seq<Seq<char>>>, i: int) -> bool {
    long_rows(t, i) ==> cond_ok(kind, t[i][3])
}

/// The items of a row, written one after the other.
pub open spec fn row_text(row: Seq<Seq<char>>) -> Seq<char>
    decreases row.len(),
{
    if row.len() == 0 {
        Seq::empty()
    } else {
        row_text(row.drop_last()) + row.last()
    }
}

/// Whether `d` is the rule of kind `kind` that the table row `row` gives:
/// the flag, then the strip text, the affix, the condition and the
/// morphological fields.
pub open spec fn def_from_row(d: AffixRuleDef, kind: RuleType, row: Seq<Seq<char>>) -> bool {
    &&& d.atype == kind
    &&& opt_chars(d.stripping_chars) == def_strip(row[1])
    &&& d.affix@ == row[2]
    &&& d.condition@ == row[3]
    &&& strings_view(d.morph_info@) == row.skip(4)
    &&& d.compiled()
}

/// The items of a row, written one after the other.
fn join_row(row: &Vec<String>) -> (r: String)
    ensures
        r@ == row_text(strings_view(row@)),
{
    let ghost v = strings_view(row@);
    let mut out = String::new();
    let mut i: usize = 0;
    proof {
        assert(v.take(0) =~= Seq::<Seq<char>>::empty());
    }
    while i < row.len()
        invariant
            i <= row@.len(),
            v == strings_view(row@),
            out@ == row_text(v.take(i as int)),
        decreases row@.len() - i,
    {
        push_str(&mut out, row[i].as_str());
        proof {
            assert(v.take(i + 1).drop_last() =~= v.take(i as int));
            assert(v.take(i + 1).last() == row@[i as int]@);
        }
        i += 1;
    }
    proof {
        assert(v.take(i as int) =~= v);
    }
    out
}

/// The items of a row from the `from`-th on.
fn row_tail(row: &Vec<String>, from: usize) -> (r: Vec<String>)
    requires
        from <= row@.len(),
    ensures
        strings_view(r@) == strings_view(row@).skip(from as int),
{
    let mut out: Vec<String> = Vec::new();
    let mut i: usize = from;
    while i < row.len()
        invariant
            from <= i <= row@.len(),
            strings_view(out@) == strings_view(row@).subrange(from as int, i as int),
        decreases row@.len() - i,
    {
        let ghost before = out@;
        out.push(row[i].clone());
        proof {
            assert(strings_view(out@) =~= strings_view(before).push(row@[i as int]@));
            assert(strings_view(row@).subrange(from as int, i + 1) =~= strings_view(row@).subrange(
                from as int,
                i as int,
            ).push(row@[i as int]@));
        }
        i += 1;
    }
    proof {
        assert(strings_view(row@).subrange(from as int, i as int) =~= strings_view(row@).skip(from as int));
    }
    out
}

impl Rule {
    /// The rule that a table of token rows gives, for a token of type
    /// `ttype`: the first row holds the flag and the cross product mark
    /// (`Y` or `N`); each other row holds the flag again, the strip text,
    /// the affix, the condition and then morphological fields. A token that
    /// is not a prefix or a suffix, a row with fewer than four items, a
    /// first row without a flag, and a missing or unknown cross product mark
    /// are errors, checked in that order.
    pub fn from_processed_token(ttype: TokenType, table: &Vec<Vec<String>>) -> (r: Result<Rule, AffixError>)
        requires
            table@.len() >= 1,
            token_kind(ttype) matches Some(kind) ==> forall|i: int|
                1 <= i < table@.len() ==> #[trigger] row_ready(kind, table_view(table@), i),
        ensures
            ({
                let t = table_view(table@);
                match token_kind(ttype) {
                    None => r matches Err(AffixError::BadTokenType),
                    Some(kind) => if long_rows(t, t.len() - 1) {
                        if t[0].len() == 0 {
                            r matches Err(AffixError::MissingIdentifier)
                        } else if t[0].len() < 2 || (t[0][1] != "Y"@ && t[0][1] != "N"@) {
                            r matches Err(AffixError::BadCrossProduct)
                        } else {
                            r matches Ok(rule) && rule.key@ == t[0][0] && rule.atype == kind
                                && rule.combine_pfx_sfx == (t[0][1] == "Y"@) && rule.rules@.len()
                                == t.len() - 1 && (forall|i: int|
                                1 <= i < t.len() ==> def_from_row(#[trigger] rule.rules@[i - 1], kind, t[i]))
                        }
                    } else {
                        exists|k: int|
                            1 <= k < t.len() && long_rows(t, k - 1) && (#[trigger] t[k]).len() < 4
                                && (r matches Err(AffixError::Syntax(s)) && s@ == row_text(t[k]))
                    },
                }
            }),
    {
        let ghost t = table_view(table@);
        let start = &table[0];
        let atype = match ttype {
            TokenType::Prefix => RuleType::Prefix,
            TokenType::Suffix => RuleType::Suffix,
            _ => {
                return Err(AffixError::BadTokenType);
            },
        };
        let mut ruledefs: Vec<AffixRuleDef> = Vec::new();
        let mut i: usize = 1;
        while i < table.len()
            invariant
                1 <= i <= table@.len(),
                t == table_view(table@),
                token_kind(ttype) == Some(atype),
                forall|k: int| 1 <= k < table@.len() ==> #[trigger] row_ready(atype, t, k),
                long_rows(t, i - 1),
                ruledefs@.len() == i - 1,
                forall|j: int| 1 <= j < i ==> def_from_row(#[trigger] ruledefs@[j - 1], atype, t[j]),
            decreases table@.len() - i,
        {
            let row = &table[i];
            proof {
                assert(t[i as int] == strings_view(row@));
            }
            if row.len() < 4 {
                let text = join_row(row);
                proof {
                    assert(t[i as int].len() < 4);
                }
                return Err(AffixError::Syntax(text));
            }
            proof {
                assert(long_rows(t, i as int)) by {
                    assert forall|j: int| 1 <= j <= i implies (#[trigger] t[j]).len() >= 4 by {
                        if j < i {
                            assert(long_rows(t, i - 1));
                        }
                    }
                }
                assert(row_ready(atype, t, i as int));
                assert(t[i as int][3] == row@[3]@);
            }
            let tail = row_tail(row, 4);
            let d = AffixRuleDef::from_table_creation(
                atype,
                row[1].as_str(),
                row[2].as_str(),
                row[3].as_str(),
                tail,
            );
            let ghost before = ruledefs@;
            ruledefs.push(d);
            proof {
                assert(def_from_row(ruledefs@[i - 1], atype, t[i as int]));
                assert forall|j: int| 1 <= j < i + 1 implies def_from_row(
                    #[trigger] ruledefs@[j - 1],
                    atype,
                    t[j],
                ) by {
                    if j < i {
                        assert(ruledefs@[j - 1] == before[j - 1]);
                    }
                }
            }
            i += 1;
        }
        if start.len() == 0 {
            return Err(AffixError::MissingIdentifier);
        }
        proof {
            assert(t[0] == strings_view(start@));
        }
        if start.len() < 2 {
            return Err(AffixError::BadCrossProduct);
        }
        let combine = if str_eq(start[1].as_str(), "Y") {
            true
        } else if str_eq(start[1].as_str(), "N") {
            false
        } else {
            return Err(AffixError::BadCrossProduct);
        };
        Ok(Rule { key: start[0].clone(), atype, combine_pfx_sfx: combine, rules: ruledefs })
    }

    /// Apply the first of the rules that applies to `rootword`; `None` if
    /// none does. Prefixes and suffixes are not combined here.
    pub fn apply(&self, rootword: &str) -> (r: Option<String>)
        requires
            forall|i: int| 0 <= i < self.rules@.len() ==> (#[trigger] self.rules@[i]).ready(),
        ensures
            match r {
                Some(w) => defs_applied(self.rules@, rootword@) == Some(w@),
                None => defs_applied(self.rules@, rootword@) is None,
            },
    {
        let ghost ds = self.rules@;
        let mut i: usize = 0;
        proof {
            assert(ds.skip(0) =~= ds);
        }
        while i < self.rules.len()
            invariant
                i <= ds.len(),
                ds == self.rules@,
                forall|k: int| 0 <= k < ds.len() ==> (#[trigger] ds[k]).ready(),
                defs_applied(ds, rootword@) == defs_applied(ds.skip(i as int), rootword@),
            decreases ds.len() - i,
        {
            proof {
                assert(ds.skip(i as int)[0] == ds[i as int]);
                assert(ds.skip(i as int).drop_first() =~= ds.skip(i + 1));
            }
            match self.rules[i].apply_pattern(rootword) {
                Some(applied) => {
                    return Some(applied);
                },
                None => {},
            }
            i += 1;
        }
        proof {
            assert(ds.skip(i as int).len() == 0);
        }
        None
    }
}

} // verus!

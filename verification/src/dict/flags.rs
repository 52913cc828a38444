//! What a flag of a dictionary word stands for.

use std::sync::Arc;
use vstd::prelude::*;

use super::rule::{AfxRule, PatternView};
use super::types::clone_arc;
use crate::affix::RuleType;

verus! {

/// A representation of what a flag represents.
#[derive(Debug, PartialEq, Eq)]
pub enum FlagValue {
    AfxCircumfix,
    AfxKeepCase,
    AfxNeeded,
    AfxPseudoRoot,
    AfxSubstandard,
    Compound,
    CompoundBegin,
    CompoundEnd,
    CompoundForbid,
    CompoundForceUp,
    CompoundMiddle,
    CompoundOnly,
    CompoundPermit,
    CompoundRoot,
    ForbiddenWord,
    NoSuggest,
    WarnRare,
    /// An affix rule
    Rule(Arc<AfxRule>),
}

/// The name under which a flag value is displayed.
pub open spec fn flag_value_name(v: FlagValue) -> Seq<char> {
    match v {
        FlagValue::AfxCircumfix => "AfxCircumfix"@,
        FlagValue::AfxKeepCase => "AfxKeepCase"@,
        FlagValue::AfxNeeded => "AfxNeeded"@,
        FlagValue::AfxPseudoRoot => "AfxPseudoRoot"@,
        FlagValue::AfxSubstandard => "AfxSubstandard"@,
        FlagValue::Compound => "Compound"@,
        FlagValue::CompoundBegin => "CompoundBegin"@,
        FlagValue::CompoundEnd => "CompoundEnd"@,
        FlagValue::CompoundForbid => "CompoundForbid"@,
        FlagValue::CompoundForceUp => "CompoundForceUp"@,
        FlagValue::CompoundMiddle => "CompoundMiddle"@,
        FlagValue::CompoundOnly => "CompoundOnly"@,
        FlagValue::CompoundPermit => "CompoundPermit"@,
        FlagValue::CompoundRoot => "CompoundRoot"@,
        FlagValue::ForbiddenWord => "ForbiddenWord"@,
        FlagValue::NoSuggest => "NoSuggest"@,
        FlagValue::WarnRare => "WarnRare"@,
        FlagValue::Rule(_) => "Rule"@,
    }
}

impl FlagValue {
    /// The name under which the flag value is displayed.
    pub fn to_string(&self) -> (r: String)
        ensures
            r@ == flag_value_name(*self),
    {
        let s = match self {
            FlagValue::AfxCircumfix => "AfxCircumfix",
            FlagValue::AfxKeepCase => "AfxKeepCase",
            FlagValue::AfxNeeded => "AfxNeeded",
            FlagValue::AfxPseudoRoot => "AfxPseudoRoot",
            FlagValue::AfxSubstandard => "AfxSubstandard",
            FlagValue::Compound => "Compound",
            FlagValue::CompoundBegin => "CompoundBegin",
            FlagValue::CompoundEnd => "CompoundEnd",
            FlagValue::CompoundForbid => "CompoundForbid",
            FlagValue::CompoundForceUp => "CompoundForceUp",
            FlagValue::CompoundMiddle => "CompoundMiddle",
            FlagValue::CompoundOnly => "CompoundOnly",
            FlagValue::CompoundPermit => "CompoundPermit",
            FlagValue::CompoundRoot => "CompoundRoot",
            FlagValue::ForbiddenWord => "ForbiddenWord",
            FlagValue::NoSuggest => "NoSuggest",
            FlagValue::WarnRare => "WarnRare",
            FlagValue::Rule(_) => "Rule",
        };
        s.to_owned()
    }
}


/// What a flag stands for, with a rule given by its value.
pub enum FlagEntry {
    Special(FlagValue),
    Rule(RuleType, bool, Seq<PatternView>),
}

/// What the flag value `v` stands for.
pub open spec fn flag_entry(v: FlagValue) -> FlagEntry {
    match v {
        FlagValue::Rule(r) => FlagEntry::Rule(r.spec_kind(), r.spec_can_combine(), r.spec_patterns()),
        _ => FlagEntry::Special(v),
    }
}

impl Clone for FlagValue {
    fn clone(&self) -> (r: FlagValue)
        ensures
            r == *self,
    {
        match self {
            FlagValue::AfxCircumfix => FlagValue::AfxCircumfix,
            FlagValue::AfxKeepCase => FlagValue::AfxKeepCase,
            FlagValue::AfxNeeded => FlagValue::AfxNeeded,
            FlagValue::AfxPseudoRoot => FlagValue::AfxPseudoRoot,
            FlagValue::AfxSubstandard => FlagValue::AfxSubstandard,
            FlagValue::Compound => FlagValue::Compound,
            FlagValue::CompoundBegin => FlagValue::CompoundBegin,
            FlagValue::CompoundEnd => FlagValue::CompoundEnd,
            FlagValue::CompoundForbid => FlagValue::CompoundForbid,
            FlagValue::CompoundForceUp => FlagValue::CompoundForceUp,
            FlagValue::CompoundMiddle => FlagValue::CompoundMiddle,
            FlagValue::CompoundOnly => FlagValue::CompoundOnly,
            FlagValue::CompoundPermit => FlagValue::CompoundPermit,
            FlagValue::CompoundRoot => FlagValue::CompoundRoot,
            FlagValue::ForbiddenWord => FlagValue::ForbiddenWord,
            FlagValue::NoSuggest => FlagValue::NoSuggest,
            FlagValue::WarnRare => FlagValue::WarnRare,
            FlagValue::Rule(r) => FlagValue::Rule(clone_arc(r)),
        }
    }
}

} // verus!

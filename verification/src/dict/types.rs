//! Where a word of a word list came from.

use std::sync::Arc;
use vstd::prelude::*;

use super::parser::ParsedPersonalMeta;
use super::rule::{AfxRule, PatternView};
use crate::affix::RuleType;
use crate::morph::{morphs_view, MorphInfo, MorphView};

verus! {

/// `Arc::clone`: a new pointer to the same value.
#[verifier::external_body]
pub(crate) fn clone_arc<T>(a: &Arc<T>) -> (r: Arc<T>)
    ensures
        r == *a,
{
    Arc::clone(a)
}

/// Extra information about where a word came from.
#[derive(Debug, PartialEq, Eq)]
pub enum Source {
    /// The word was made by an affix rule
    Affix(Arc<AfxRule>),
    /// The word is a stem of the dictionary file, with its morphs
    Dict(Vec<MorphInfo>),
    /// The word came from the personal dictionary
    Personal(ParsedPersonalMeta),
    /// The word came from a text with no further information
    Raw,
}

/// Where a word came from: the name that the rule-set API uses.
pub type MetaInfo = Source;

/// The value of a [`Source`].
pub enum SourceView {
    /// An affix rule: its kind, whether it combines, and its patterns
    Affix(RuleType, bool, Seq<PatternView>),
    Dict(Seq<MorphView>),
    /// A personal entry: its friend and morphs
    Personal(Option<Seq<char>>, Seq<MorphView>),
    Raw,
}

impl View for Source {
    type V = SourceView;

    open spec fn view(&self) -> SourceView {
        match self {
            Source::Affix(r) => SourceView::Affix(r.spec_kind(), r.spec_can_combine(), r.spec_patterns()),
            Source::Dict(m) => SourceView::Dict(morphs_view(m@)),
            Source::Personal(p) => SourceView::Personal(p.spec_friend(), p.spec_morph()),
            Source::Raw => SourceView::Raw,
        }
    }
}

/// The stem a word belongs to, and where the word came from.
#[derive(Debug, PartialEq, Eq)]
pub struct Meta {
    stem: Arc<String>,
    source: Source,
}

/// The value of a [`Meta`]: the stem and the source.
pub type MetaView = (Seq<char>, SourceView);

impl View for Meta {
    type V = MetaView;

    closed spec fn view(&self) -> MetaView {
        (self.stem@, self.source@)
    }
}

/// The values of a list of metas.
pub open spec fn metas_view(v: Seq<Meta>) -> Seq<MetaView> {
    v.map_values(|m: Meta| m@)
}

impl Meta {
    /// Information on a word of the stem `stem` with the source `source`.
    pub fn new(stem: Arc<String>, source: Source) -> (r: Meta)
        ensures
            r@ == (stem@, source@),
    {
        Meta { stem, source }
    }

    /// The stem.
    pub fn stem(&self) -> (r: &str)
        ensures
            r@ == self@.0,
    {
        self.stem.as_str()
    }

    /// The source.
    pub fn source(&self) -> (r: &Source)
        ensures
            r@ == self@.1,
    {
        &self.source
    }
}

/// A stem and a shared source.
#[derive(Debug, PartialEq, Eq)]
pub struct Extra {
    stem: Arc<String>,
    source: Arc<Source>,
}

impl View for Extra {
    type V = MetaView;

    closed spec fn view(&self) -> MetaView {
        (self.stem@, self.source@)
    }
}

impl Extra {
    /// Information on a word of the stem `stem_rc` with the source
    /// `source_rc`.
    pub fn new(stem_rc: Arc<String>, source_rc: Arc<Source>) -> (r: Extra)
        ensures
            r@ == (stem_rc@, source_rc@),
    {
        Extra { stem: stem_rc, source: source_rc }
    }
}

} // verus!

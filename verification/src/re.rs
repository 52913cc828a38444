//! Regular expressions, through the `regex` crate.
//!
//! A [`ReWrapper`] keeps the pattern it was compiled from next to the
//! compiled expression, so that contracts can speak of the pattern.

use regex::Error as RegexError;
use regex::Regex;
use vstd::prelude::*;
use vstd::string::StringExecFns;

use crate::affix::RuleType;

verus! {

#[verifier::external_type_specification]
#[verifier::external_body]
pub struct ExRegex(regex::Regex);

#[verifier::external_type_specification]
#[verifier::external_body]
pub struct ExRegexError(RegexError);

/// `regex::Error::clone`: the derived clone of the error enum, so the clone
/// is the same error.
pub assume_specification[ <RegexError as Clone>::clone ](e: &RegexError) -> (r: RegexError)
    ensures
        r == *e,
;

/// Whether `regex::Regex::new` accepts `pattern`.
pub uninterp spec fn regex_compiles(pattern: Seq<char>) -> bool;

/// Whether `regex::Regex::is_match` finds a match of `pattern` in
/// `haystack`.
pub uninterp spec fn regex_is_match(pattern: Seq<char>, haystack: Seq<char>) -> bool;

/// The capture groups, by index, of the first match of `pattern` in
/// `haystack`, as `regex::Regex::captures` gives them; `None` when there is
/// no match.
pub uninterp spec fn regex_captures(pattern: Seq<char>, haystack: Seq<char>) -> Option<
    Seq<Option<Seq<char>>>,
>;

/// A compiled regular expression together with its pattern.
#[derive(Debug)]
pub struct ReWrapper {
    pattern: String,
    re: Regex,
}

impl ReWrapper {
    /// The pattern this expression was compiled from.
    pub closed spec fn spec_pattern(&self) -> Seq<char> {
        self.pattern@
    }

    /// Compile `pattern` with `regex::Regex::new`.
    ///
    /// Trusted: it succeeds exactly when `regex_compiles(pattern)`, and the
    /// expression it returns keeps `pattern` as its pattern.
    #[verifier::external_body]
    pub(crate) fn new(pattern: &str) -> (r: Result<ReWrapper, regex::Error>)
        ensures
            r is Ok <==> regex_compiles(pattern@),
            r matches Ok(w) ==> w.spec_pattern() == pattern@,
    {
        Regex::new(pattern).map(|re| ReWrapper { pattern: pattern.to_owned(), re })
    }

    /// The pattern, as `regex::Regex::as_str` returns it.
    pub fn as_str(&self) -> (r: &str)
        ensures
            r@ == self.spec_pattern(),
    {
        self.pattern.as_str()
    }

    /// `regex::Regex::is_match` on `haystack`.
    ///
    /// Trusted: the answer is `regex_is_match(pattern, haystack)` for the
    /// pattern this expression was compiled from.
    #[verifier::external_body]
    pub(crate) fn is_match(&self, haystack: &str) -> (r: bool)
        ensures
            r == regex_is_match(self.spec_pattern(), haystack@),
    {
        self.re.is_match(haystack)
    }

    /// `regex::Regex::captures` on `haystack`, each group given by its text.
    ///
    /// Trusted: the groups are `regex_captures(pattern, haystack)` for the
    /// pattern this expression was compiled from.
    #[verifier::external_body]
    pub(crate) fn captures(&self, haystack: &str) -> (r: Option<Vec<Option<String>>>)
        ensures
            match r {
                Some(groups) => regex_captures(self.spec_pattern(), haystack@) == Some(
                    groups@.map_values(|g: Option<String>| opt_view(g)),
                ),
                None => regex_captures(self.spec_pattern(), haystack@) is None,
            },
    {
        self.re.captures(haystack).map(
            |caps| caps.iter().map(|m| m.map(|m| m.as_str().to_owned())).collect(),
        )
    }
}

/// The characters of an optional string.
pub open spec fn opt_view(o: Option<String>) -> Option<Seq<char>> {
    match o {
        Some(s) => Some(s@),
        None => None,
    }
}

/// `regex::Regex::clone`: the clone has the same pattern as `re`.
#[verifier::external_body]
fn clone_regex(re: &Regex) -> (r: Regex)
{
    re.clone()
}

impl Clone for ReWrapper {
    fn clone(&self) -> (r: Self)
        ensures
            r.spec_pattern() == self.spec_pattern(),
    {
        ReWrapper { pattern: self.pattern.clone(), re: clone_regex(&self.re) }
    }
}

impl PartialEq for ReWrapper {
    fn eq(&self, other: &Self) -> (r: bool) {
        self.pattern == other.pattern
    }
}

impl vstd::std_specs::cmp::PartialEqSpecImpl for ReWrapper {
    open spec fn obeys_eq_spec() -> bool {
        true
    }

    open spec fn eq_spec(&self, other: &ReWrapper) -> bool {
        self.spec_pattern() == other.spec_pattern()
    }
}

impl Eq for ReWrapper {
}


/// The pattern that an affix condition `c` is compiled to: anchored at the
/// start of the word for a prefix rule and at its end for a suffix rule.
pub open spec fn condition_pattern(kind: RuleType, c: Seq<char>) -> Seq<char> {
    match kind {
        RuleType::Prefix => "^"@ + c + ".*$"@,
        RuleType::Suffix => "^.*"@ + c + "$"@,
    }
}

/// Compile the condition `condition` of an affix rule. The condition `.`
/// holds of every word and needs no expression.
pub fn compile_re_pattern(condition: &str, kind: RuleType) -> (r: Result<
    Option<ReWrapper>,
    regex::Error,
>)
    ensures
        condition@ == "."@ ==> r matches Ok(None),
        condition@ != "."@ ==> match r {
            Ok(Some(w)) => regex_compiles(condition_pattern(kind, condition@)) && w.spec_pattern()
                == condition_pattern(kind, condition@),
            Ok(None) => false,
            Err(_) => !regex_compiles(condition_pattern(kind, condition@)),
        },
{
    if crate::text::str_eq(condition, ".") {
        return Ok(None);
    }
    let mut p = match kind {
        RuleType::Prefix => String::from_str("^"),
        RuleType::Suffix => String::from_str("^.*"),
    };
    p.append(condition);
    match kind {
        RuleType::Prefix => p.append(".*$"),
        RuleType::Suffix => p.append("$"),
    }
    match ReWrapper::new(p.as_str()) {
        Ok(w) => Ok(Some(w)),
        Err(e) => Err(e),
    }
}

} // verus!

//! The kinds of entries of an affix file and the encodings it may declare,
//! each with the name under which it is written.

use vstd::prelude::*;

use crate::text::str_eq;

verus! {

/// A name that stands for no variant.
#[derive(Debug, Clone, Copy, PartialEq, Eq)]
pub struct NoSuchVariant;

/// Every kind of entry found in Hunspell affix files.
#[non_exhaustive]
#[derive(Debug, Clone, Copy, PartialEq, Eq, Structural)]
pub enum TokenType {
    Encoding,
    FlagType,
    ComplexPrefixes,
    Language,
    IgnoreChars,
    AffixFlag,
    MorphAlias,
    NeighborKeys,
    TryCharacters,
    NoSuggestFlag,
    CompoundSuggestionsMax,
    NGramSuggestionsMax,
    NGramDiffMax,
    NGramLimitToDiffMax,
    NoSpaceSubs,
    KeepTerminationDots,
    Replacement,
    Mapping,
    Phonetic,
    WarnRareFlag,
    ForbidWarnWords,
    Breakpoint,
    CompoundRule,
    CompoundMinLength,
    CompoundFlag,
    CompoundBeginFlag,
    CompoundEndFlag,
    CompoundMiddleFlag,
    CompoundOnlyFlag,
    CompoundPermitFlag,
    CompoundForbidFlag,
    CompoundMoreSuffixes,
    CompoundRoot,
    CompoundWordMax,
    CompoundForbidDuplication,
    CompoundForbidRepeat,
    CompoundForbidUpperBoundary,
    CompoundForbidTriple,
    CompoundSimplifyTriple,
    CompoundForbidPatterns,
    CompoundForceUpper,
    CompoundForceSyllable,
    CompoundSyllableNumber,
    Prefix,
    Suffix,
    AffixCircumfixFlag,
    AffixForbiddenWordFlag,
    AffixFullStrip,
    AffixKeepCase,
    AffixInputConversion,
    AffixOutputConversion,
    AffixLemmaPresentDeprecated,
    AffixNeededFlag,
    AffixPseudoRootFlagDeprecated,
    AffixSubstandardFlag,
    AffixWordChars,
    AffixCheckSharps,
    FileStart,
}

/// The name under which an entry of kind `t` is written.
pub open spec fn token_name(t: TokenType) -> Seq<char> {
    match t {
        TokenType::Encoding => "SET"@,
        TokenType::FlagType => "FLAG"@,
        TokenType::ComplexPrefixes => "COMPLEXPREFIXES"@,
        TokenType::Language => "LANG"@,
        TokenType::IgnoreChars => "IGNORE"@,
        TokenType::AffixFlag => "AF"@,
        TokenType::MorphAlias => "AM"@,
        TokenType::NeighborKeys => "KEY"@,
        TokenType::TryCharacters => "TRY"@,
        TokenType::NoSuggestFlag => "NOSUGGEST"@,
        TokenType::CompoundSuggestionsMax => "MAXCPDSUGS"@,
        TokenType::NGramSuggestionsMax => "MAXNGRAMSUGS"@,
        TokenType::NGramDiffMax => "MAXDIFF"@,
        TokenType::NGramLimitToDiffMax => "ONLYMAXDIFF"@,
        TokenType::NoSpaceSubs => "NOSPLITSUGS"@,
        TokenType::KeepTerminationDots => "SUGSWITHDOTS"@,
        TokenType::Replacement => "REP"@,
        TokenType::Mapping => "MAP"@,
        TokenType::Phonetic => "PHONE"@,
        TokenType::WarnRareFlag => "WARN"@,
        TokenType::ForbidWarnWords => "FORBIDWARN"@,
        TokenType::Breakpoint => "BREAK"@,
        TokenType::CompoundRule => "COMPOUNDRULE"@,
        TokenType::CompoundMinLength => "COMPOUNDMIN"@,
        TokenType::CompoundFlag => "COMPOUNDFLAG"@,
        TokenType::CompoundBeginFlag => "COMPOUNDBEGIN"@,
        TokenType::CompoundEndFlag => "COMPOUNDLAST"@,
        TokenType::CompoundMiddleFlag => "COMPOUNDMIDDLE"@,
        TokenType::CompoundOnlyFlag => "ONLYINCOMPOUND"@,
        TokenType::CompoundPermitFlag => "COMPOUNDPERMITFLAG"@,
        TokenType::CompoundForbidFlag => "COMPOUNDFORBIDFLAG"@,
        TokenType::CompoundMoreSuffixes => "COMPOUNDMORESUFFIXES"@,
        TokenType::CompoundRoot => "COMPOUNDROOT"@,
        TokenType::CompoundWordMax => "COMPOUNDWORDMAX"@,
        TokenType::CompoundForbidDuplication => "CHECKCOMPOUNDDUP"@,
        TokenType::CompoundForbidRepeat => "CHECKCOMPOUNDREP"@,
        TokenType::CompoundForbidUpperBoundary => "CHECKCOMPOUNDCASE"@,
        TokenType::CompoundForbidTriple => "CHECKCOMPOUNDTRIPLE"@,
        TokenType::CompoundSimplifyTriple => "SIMPLIFIEDTRIPLE"@,
        TokenType::CompoundForbidPatterns => "CHECKCOMPOUNDPATTERN"@,
        TokenType::CompoundForceUpper => "FORCEUCASE"@,
        TokenType::CompoundForceSyllable => "COMPOUNDSYLLABLE"@,
        TokenType::CompoundSyllableNumber => "SYLLABLENUM"@,
        TokenType::Prefix => "PFX"@,
        TokenType::Suffix => "SFX"@,
        TokenType::AffixCircumfixFlag => "CIRCUMFIX"@,
        TokenType::AffixForbiddenWordFlag => "FORBIDDENWORD"@,
        TokenType::AffixFullStrip => "FULLSTRIP"@,
        TokenType::AffixKeepCase => "KEEPCASE"@,
        TokenType::AffixInputConversion => "ICONV"@,
        TokenType::AffixOutputConversion => "OCONV"@,
        TokenType::AffixLemmaPresentDeprecated => "LEMMA_PRESENT"@,
        TokenType::AffixNeededFlag => "NEEDAFFIX"@,
        TokenType::AffixPseudoRootFlagDeprecated => "PSEUDOROOT"@,
        TokenType::AffixSubstandardFlag => "SUBSTANDARD"@,
        TokenType::AffixWordChars => "WORDCHARS"@,
        TokenType::AffixCheckSharps => "CHECKSHARPS"@,
        TokenType::FileStart => "FileStart"@,
    }
}

/// The type of the data of an entry of kind `t`, where it has one.
pub open spec fn token_dtype(t: TokenType) -> Option<Seq<char>> {
    match t {
        TokenType::Encoding => Some("str"@),
        TokenType::FlagType => Some("str"@),
        TokenType::ComplexPrefixes => Some("bool"@),
        TokenType::Language => Some("str"@),
        TokenType::IgnoreChars => Some("str"@),
        TokenType::AffixFlag => Some("table"@),
        TokenType::MorphAlias => Some("table"@),
        TokenType::NeighborKeys => Some("str"@),
        TokenType::TryCharacters => Some("str"@),
        TokenType::NoSuggestFlag => Some("str"@),
        TokenType::CompoundSuggestionsMax => Some("int"@),
        TokenType::NGramSuggestionsMax => Some("int"@),
        TokenType::NGramDiffMax => Some("int"@),
        TokenType::NGramLimitToDiffMax => Some("bool"@),
        TokenType::NoSpaceSubs => Some("bool"@),
        TokenType::KeepTerminationDots => Some("bool"@),
        TokenType::Replacement => Some("table"@),
        TokenType::Mapping => Some("table"@),
        TokenType::Phonetic => Some("table"@),
        TokenType::WarnRareFlag => Some("str"@),
        TokenType::ForbidWarnWords => Some("bool"@),
        TokenType::Breakpoint => Some("table"@),
        TokenType::CompoundRule => Some("table"@),
        TokenType::CompoundMinLength => Some("int"@),
        TokenType::CompoundFlag => Some("str"@),
        TokenType::CompoundBeginFlag => Some("str"@),
        TokenType::CompoundEndFlag => Some("str"@),
        TokenType::CompoundMiddleFlag => Some("str"@),
        TokenType::CompoundOnlyFlag => Some("str"@),
        TokenType::CompoundPermitFlag => Some("str"@),
        TokenType::CompoundForbidFlag => Some("str"@),
        TokenType::CompoundMoreSuffixes => Some("bool"@),
        TokenType::CompoundRoot => Some("str"@),
        TokenType::CompoundWordMax => Some("int"@),
        TokenType::CompoundForbidDuplication => Some("bool"@),
        TokenType::CompoundForbidRepeat => Some("bool"@),
        TokenType::CompoundForbidUpperBoundary => Some("bool"@),
        TokenType::CompoundForbidTriple => Some("bool"@),
        TokenType::CompoundSimplifyTriple => Some("bool"@),
        TokenType::CompoundForbidPatterns => Some("table"@),
        TokenType::CompoundForceUpper => Some("str"@),
        TokenType::CompoundForceSyllable => Some("str"@),
        TokenType::CompoundSyllableNumber => Some("str"@),
        TokenType::Prefix => Some("table"@),
        TokenType::Suffix => Some("table"@),
        TokenType::AffixCircumfixFlag => Some("str"@),
        TokenType::AffixForbiddenWordFlag => Some("str"@),
        TokenType::AffixFullStrip => Some("bool"@),
        TokenType::AffixKeepCase => Some("str"@),
        TokenType::AffixInputConversion => Some("table"@),
        TokenType::AffixOutputConversion => Some("table"@),
        TokenType::AffixLemmaPresentDeprecated => Some("str"@),
        TokenType::AffixNeededFlag => Some("str"@),
        TokenType::AffixPseudoRootFlagDeprecated => Some("str"@),
        TokenType::AffixSubstandardFlag => Some("str"@),
        TokenType::AffixWordChars => Some("str"@),
        TokenType::AffixCheckSharps => Some("bool"@),
        TokenType::FileStart => None,
    }
}

/// The kind of entry whose name is `s`, if any.
pub open spec fn token_of(s: Seq<char>) -> Option<TokenType> {
    if s == "SET"@ {
        Some(TokenType::Encoding)
    } else if s == "FLAG"@ {
        Some(TokenType::FlagType)
    } else if s == "COMPLEXPREFIXES"@ {
        Some(TokenType::ComplexPrefixes)
    } else if s == "LANG"@ {
        Some(TokenType::Language)
    } else if s == "IGNORE"@ {
        Some(TokenType::IgnoreChars)
    } else if s == "AF"@ {
        Some(TokenType::AffixFlag)
    } else if s == "AM"@ {
        Some(TokenType::MorphAlias)
    } else if s == "KEY"@ {
        Some(TokenType::NeighborKeys)
    } else if s == "TRY"@ {
        Some(TokenType::TryCharacters)
    } else if s == "NOSUGGEST"@ {
        Some(TokenType::NoSuggestFlag)
    } else if s == "MAXCPDSUGS"@ {
        Some(TokenType::CompoundSuggestionsMax)
    } else if s == "MAXNGRAMSUGS"@ {
        Some(TokenType::NGramSuggestionsMax)
    } else if s == "MAXDIFF"@ {
        Some(TokenType::NGramDiffMax)
    } else if s == "ONLYMAXDIFF"@ {
        Some(TokenType::NGramLimitToDiffMax)
    } else if s == "NOSPLITSUGS"@ {
        Some(TokenType::NoSpaceSubs)
    } else if s == "SUGSWITHDOTS"@ {
        Some(TokenType::KeepTerminationDots)
    } else if s == "REP"@ {
        Some(TokenType::Replacement)
    } else if s == "MAP"@ {
        Some(TokenType::Mapping)
    } else if s == "PHONE"@ {
        Some(TokenType::Phonetic)
    } else if s == "WARN"@ {
        Some(TokenType::WarnRareFlag)
    } else if s == "FORBIDWARN"@ {
        Some(TokenType::ForbidWarnWords)
    } else if s == "BREAK"@ {
        Some(TokenType::Breakpoint)
    } else if s == "COMPOUNDRULE"@ {
        Some(TokenType::CompoundRule)
    } else if s == "COMPOUNDMIN"@ {
        Some(TokenType::CompoundMinLength)
    } else if s == "COMPOUNDFLAG"@ {
        Some(TokenType::CompoundFlag)
    } else if s == "COMPOUNDBEGIN"@ {
        Some(TokenType::CompoundBeginFlag)
    } else if s == "COMPOUNDLAST"@ {
        Some(TokenType::CompoundEndFlag)
    } else if s == "COMPOUNDMIDDLE"@ {
        Some(TokenType::CompoundMiddleFlag)
    } else if s == "ONLYINCOMPOUND"@ {
        Some(TokenType::CompoundOnlyFlag)
    } else if s == "COMPOUNDPERMITFLAG"@ {
        Some(TokenType::CompoundPermitFlag)
    } else if s == "COMPOUNDFORBIDFLAG"@ {
        Some(TokenType::CompoundForbidFlag)
    } else if s == "COMPOUNDMORESUFFIXES"@ {
        Some(TokenType::CompoundMoreSuffixes)
    } else if s == "COMPOUNDROOT"@ {
        Some(TokenType::CompoundRoot)
    } else if s == "COMPOUNDWORDMAX"@ {
        Some(TokenType::CompoundWordMax)
    } else if s == "CHECKCOMPOUNDDUP"@ {
        Some(TokenType::CompoundForbidDuplication)
    } else if s == "CHECKCOMPOUNDREP"@ {
        Some(TokenType::CompoundForbidRepeat)
    } else if s == "CHECKCOMPOUNDCASE"@ {
        Some(TokenType::CompoundForbidUpperBoundary)
    } else if s == "CHECKCOMPOUNDTRIPLE"@ {
        Some(TokenType::CompoundForbidTriple)
    } else if s == "SIMPLIFIEDTRIPLE"@ {
        Some(TokenType::CompoundSimplifyTriple)
    } else if s == "CHECKCOMPOUNDPATTERN"@ {
        Some(TokenType::CompoundForbidPatterns)
    } else if s == "FORCEUCASE"@ {
        Some(TokenType::CompoundForceUpper)
    } else if s == "COMPOUNDSYLLABLE"@ {
        Some(TokenType::CompoundForceSyllable)
    } else if s == "SYLLABLENUM"@ {
        Some(TokenType::CompoundSyllableNumber)
    } else if s == "PFX"@ {
        Some(TokenType::Prefix)
    } else if s == "SFX"@ {
        Some(TokenType::Suffix)
    } else if s == "CIRCUMFIX"@ {
        Some(TokenType::AffixCircumfixFlag)
    } else if s == "FORBIDDENWORD"@ {
        Some(TokenType::AffixForbiddenWordFlag)
    } else if s == "FULLSTRIP"@ {
        Some(TokenType::AffixFullStrip)
    } else if s == "KEEPCASE"@ {
        Some(TokenType::AffixKeepCase)
    } else if s == "ICONV"@ {
        Some(TokenType::AffixInputConversion)
    } else if s == "OCONV"@ {
        Some(TokenType::AffixOutputConversion)
    } else if s == "LEMMA_PRESENT"@ {
        Some(TokenType::AffixLemmaPresentDeprecated)
    } else if s == "NEEDAFFIX"@ {
        Some(TokenType::AffixNeededFlag)
    } else if s == "PSEUDOROOT"@ {
        Some(TokenType::AffixPseudoRootFlagDeprecated)
    } else if s == "SUBSTANDARD"@ {
        Some(TokenType::AffixSubstandardFlag)
    } else if s == "WORDCHARS"@ {
        Some(TokenType::AffixWordChars)
    } else if s == "CHECKSHARPS"@ {
        Some(TokenType::AffixCheckSharps)
    } else if s == "FileStart"@ {
        Some(TokenType::FileStart)
    } else {
        None
    }
}

impl TokenType {
    /// The kind of entry named `value`.
    pub fn try_from(value: &str) -> (r: Result<TokenType, NoSuchVariant>)
        ensures
            match token_of(value@) {
                Some(t) => r == Ok::<TokenType, NoSuchVariant>(t),
                None => r is Err,
            },
    {
        if str_eq(value, "SET") {
            return Ok(TokenType::Encoding);
        }
        if str_eq(value, "FLAG") {
            return Ok(TokenType::FlagType);
        }
        if str_eq(value, "COMPLEXPREFIXES") {
            return Ok(TokenType::ComplexPrefixes);
        }
        if str_eq(value, "LANG") {
            return Ok(TokenType::Language);
        }
        if str_eq(value, "IGNORE") {
            return Ok(TokenType::IgnoreChars);
        }
        if str_eq(value, "AF") {
            return Ok(TokenType::AffixFlag);
        }
        if str_eq(value, "AM") {
            return Ok(TokenType::MorphAlias);
        }
        if str_eq(value, "KEY") {
            return Ok(TokenType::NeighborKeys);
        }
        if str_eq(value, "TRY") {
            return Ok(TokenType::TryCharacters);
        }
        if str_eq(value, "NOSUGGEST") {
            return Ok(TokenType::NoSuggestFlag);
        }
        if str_eq(value, "MAXCPDSUGS") {
            return Ok(TokenType::CompoundSuggestionsMax);
        }
        if str_eq(value, "MAXNGRAMSUGS") {
            return Ok(TokenType::NGramSuggestionsMax);
        }
        if str_eq(value, "MAXDIFF") {
            return Ok(TokenType::NGramDiffMax);
        }
        if str_eq(value, "ONLYMAXDIFF") {
            return Ok(TokenType::NGramLimitToDiffMax);
        }
        if str_eq(value, "NOSPLITSUGS") {
            return Ok(TokenType::NoSpaceSubs);
        }
        if str_eq(value, "SUGSWITHDOTS") {
            return Ok(TokenType::KeepTerminationDots);
        }
        if str_eq(value, "REP") {
            return Ok(TokenType::Replacement);
        }
        if str_eq(value, "MAP") {
            return Ok(TokenType::Mapping);
        }
        if str_eq(value, "PHONE") {
            return Ok(TokenType::Phonetic);
        }
        if str_eq(value, "WARN") {
            return Ok(TokenType::WarnRareFlag);
        }
        if str_eq(value, "FORBIDWARN") {
            return Ok(TokenType::ForbidWarnWords);
        }
        if str_eq(value, "BREAK") {
            return Ok(TokenType::Breakpoint);
        }
        if str_eq(value, "COMPOUNDRULE") {
            return Ok(TokenType::CompoundRule);
        }
        if str_eq(value, "COMPOUNDMIN") {
            return Ok(TokenType::CompoundMinLength);
        }
        if str_eq(value, "COMPOUNDFLAG") {
            return Ok(TokenType::CompoundFlag);
        }
        if str_eq(value, "COMPOUNDBEGIN") {
            return Ok(TokenType::CompoundBeginFlag);
        }
        if str_eq(value, "COMPOUNDLAST") {
            return Ok(TokenType::CompoundEndFlag);
        }
        if str_eq(value, "COMPOUNDMIDDLE") {
            return Ok(TokenType::CompoundMiddleFlag);
        }
        if str_eq(value, "ONLYINCOMPOUND") {
            return Ok(TokenType::CompoundOnlyFlag);
        }
        if str_eq(value, "COMPOUNDPERMITFLAG") {
            return Ok(TokenType::CompoundPermitFlag);
        }
        if str_eq(value, "COMPOUNDFORBIDFLAG") {
            return Ok(TokenType::CompoundForbidFlag);
        }
        if str_eq(value, "COMPOUNDMORESUFFIXES") {
            return Ok(TokenType::CompoundMoreSuffixes);
        }
        if str_eq(value, "COMPOUNDROOT") {
            return Ok(TokenType::CompoundRoot);
        }
        if str_eq(value, "COMPOUNDWORDMAX") {
            return Ok(TokenType::CompoundWordMax);
        }
        if str_eq(value, "CHECKCOMPOUNDDUP") {
            return Ok(TokenType::CompoundForbidDuplication);
        }
        if str_eq(value, "CHECKCOMPOUNDREP") {
            return Ok(TokenType::CompoundForbidRepeat);
        }
        if str_eq(value, "CHECKCOMPOUNDCASE") {
            return Ok(TokenType::CompoundForbidUpperBoundary);
        }
        if str_eq(value, "CHECKCOMPOUNDTRIPLE") {
            return Ok(TokenType::CompoundForbidTriple);
        }
        if str_eq(value, "SIMPLIFIEDTRIPLE") {
            return Ok(TokenType::CompoundSimplifyTriple);
        }
        if str_eq(value, "CHECKCOMPOUNDPATTERN") {
            return Ok(TokenType::CompoundForbidPatterns);
        }
        if str_eq(value, "FORCEUCASE") {
            return Ok(TokenType::CompoundForceUpper);
        }
        if str_eq(value, "COMPOUNDSYLLABLE") {
            return Ok(TokenType::CompoundForceSyllable);
        }
        if str_eq(value, "SYLLABLENUM") {
            return Ok(TokenType::CompoundSyllableNumber);
        }
        if str_eq(value, "PFX") {
            return Ok(TokenType::Prefix);
        }
        if str_eq(value, "SFX") {
            return Ok(TokenType::Suffix);
        }
        if str_eq(value, "CIRCUMFIX") {
            return Ok(TokenType::AffixCircumfixFlag);
        }
        if str_eq(value, "FORBIDDENWORD") {
            return Ok(TokenType::AffixForbiddenWordFlag);
        }
        if str_eq(value, "FULLSTRIP") {
            return Ok(TokenType::AffixFullStrip);
        }
        if str_eq(value, "KEEPCASE") {
            return Ok(TokenType::AffixKeepCase);
        }
        if str_eq(value, "ICONV") {
            return Ok(TokenType::AffixInputConversion);
        }
        if str_eq(value, "OCONV") {
            return Ok(TokenType::AffixOutputConversion);
        }
        if str_eq(value, "LEMMA_PRESENT") {
            return Ok(TokenType::AffixLemmaPresentDeprecated);
        }
        if str_eq(value, "NEEDAFFIX") {
            return Ok(TokenType::AffixNeededFlag);
        }
        if str_eq(value, "PSEUDOROOT") {
            return Ok(TokenType::AffixPseudoRootFlagDeprecated);
        }
        if str_eq(value, "SUBSTANDARD") {
            return Ok(TokenType::AffixSubstandardFlag);
        }
        if str_eq(value, "WORDCHARS") {
            return Ok(TokenType::AffixWordChars);
        }
        if str_eq(value, "CHECKSHARPS") {
            return Ok(TokenType::AffixCheckSharps);
        }
        if str_eq(value, "FileStart") {
            return Ok(TokenType::FileStart);
        }
        Err(NoSuchVariant)
    }

    /// The name under which the entry is written.
    pub fn to_string(&self) -> (r: String)
        ensures
            r@ == token_name(*self),
    {
        let s = match self {
            TokenType::Encoding => "SET",
            TokenType::FlagType => "FLAG",
            TokenType::ComplexPrefixes => "COMPLEXPREFIXES",
            TokenType::Language => "LANG",
            TokenType::IgnoreChars => "IGNORE",
            TokenType::AffixFlag => "AF",
            TokenType::MorphAlias => "AM",
            TokenType::NeighborKeys => "KEY",
            TokenType::TryCharacters => "TRY",
            TokenType::NoSuggestFlag => "NOSUGGEST",
            TokenType::CompoundSuggestionsMax => "MAXCPDSUGS",
            TokenType::NGramSuggestionsMax => "MAXNGRAMSUGS",
            TokenType::NGramDiffMax => "MAXDIFF",
            TokenType::NGramLimitToDiffMax => "ONLYMAXDIFF",
            TokenType::NoSpaceSubs => "NOSPLITSUGS",
            TokenType::KeepTerminationDots => "SUGSWITHDOTS",
            TokenType::Replacement => "REP",
            TokenType::Mapping => "MAP",
            TokenType::Phonetic => "PHONE",
            TokenType::WarnRareFlag => "WARN",
            TokenType::ForbidWarnWords => "FORBIDWARN",
            TokenType::Breakpoint => "BREAK",
            TokenType::CompoundRule => "COMPOUNDRULE",
            TokenType::CompoundMinLength => "COMPOUNDMIN",
            TokenType::CompoundFlag => "COMPOUNDFLAG",
            TokenType::CompoundBeginFlag => "COMPOUNDBEGIN",
            TokenType::CompoundEndFlag => "COMPOUNDLAST",
            TokenType::CompoundMiddleFlag => "COMPOUNDMIDDLE",
            TokenType::CompoundOnlyFlag => "ONLYINCOMPOUND",
            TokenType::CompoundPermitFlag => "COMPOUNDPERMITFLAG",
            TokenType::CompoundForbidFlag => "COMPOUNDFORBIDFLAG",
            TokenType::CompoundMoreSuffixes => "COMPOUNDMORESUFFIXES",
            TokenType::CompoundRoot => "COMPOUNDROOT",
            TokenType::CompoundWordMax => "COMPOUNDWORDMAX",
            TokenType::CompoundForbidDuplication => "CHECKCOMPOUNDDUP",
            TokenType::CompoundForbidRepeat => "CHECKCOMPOUNDREP",
            TokenType::CompoundForbidUpperBoundary => "CHECKCOMPOUNDCASE",
            TokenType::CompoundForbidTriple => "CHECKCOMPOUNDTRIPLE",
            TokenType::CompoundSimplifyTriple => "SIMPLIFIEDTRIPLE",
            TokenType::CompoundForbidPatterns => "CHECKCOMPOUNDPATTERN",
            TokenType::CompoundForceUpper => "FORCEUCASE",
            TokenType::CompoundForceSyllable => "COMPOUNDSYLLABLE",
            TokenType::CompoundSyllableNumber => "SYLLABLENUM",
            TokenType::Prefix => "PFX",
            TokenType::Suffix => "SFX",
            TokenType::AffixCircumfixFlag => "CIRCUMFIX",
            TokenType::AffixForbiddenWordFlag => "FORBIDDENWORD",
            TokenType::AffixFullStrip => "FULLSTRIP",
            TokenType::AffixKeepCase => "KEEPCASE",
            TokenType::AffixInputConversion => "ICONV",
            TokenType::AffixOutputConversion => "OCONV",
            TokenType::AffixLemmaPresentDeprecated => "LEMMA_PRESENT",
            TokenType::AffixNeededFlag => "NEEDAFFIX",
            TokenType::AffixPseudoRootFlagDeprecated => "PSEUDOROOT",
            TokenType::AffixSubstandardFlag => "SUBSTANDARD",
            TokenType::AffixWordChars => "WORDCHARS",
            TokenType::AffixCheckSharps => "CHECKSHARPS",
            TokenType::FileStart => "FileStart",
        };
        s.to_owned()
    }

    /// The property `prop` of the kind: only `dtype`, the type of its data,
    /// is defined.
    pub fn get_str(&self, prop: &str) -> (r: Option<&'static str>)
        ensures
            match r {
                Some(v) => prop@ == "dtype"@ && token_dtype(*self) == Some(v@),
                None => prop@ != "dtype"@ || token_dtype(*self) is None,
            },
    {
        if !str_eq(prop, "dtype") {
            return None;
        }
        match self {
            TokenType::Encoding => Some("str"),
            TokenType::FlagType => Some("str"),
            TokenType::ComplexPrefixes => Some("bool"),
            TokenType::Language => Some("str"),
            TokenType::IgnoreChars => Some("str"),
            TokenType::AffixFlag => Some("table"),
            TokenType::MorphAlias => Some("table"),
            TokenType::NeighborKeys => Some("str"),
            TokenType::TryCharacters => Some("str"),
            TokenType::NoSuggestFlag => Some("str"),
            TokenType::CompoundSuggestionsMax => Some("int"),
            TokenType::NGramSuggestionsMax => Some("int"),
            TokenType::NGramDiffMax => Some("int"),
            TokenType::NGramLimitToDiffMax => Some("bool"),
            TokenType::NoSpaceSubs => Some("bool"),
            TokenType::KeepTerminationDots => Some("bool"),
            TokenType::Replacement => Some("table"),
            TokenType::Mapping => Some("table"),
            TokenType::Phonetic => Some("table"),
            TokenType::WarnRareFlag => Some("str"),
            TokenType::ForbidWarnWords => Some("bool"),
            TokenType::Breakpoint => Some("table"),
            TokenType::CompoundRule => Some("table"),
            TokenType::CompoundMinLength => Some("int"),
            TokenType::CompoundFlag => Some("str"),
            TokenType::CompoundBeginFlag => Some("str"),
            TokenType::CompoundEndFlag => Some("str"),
            TokenType::CompoundMiddleFlag => Some("str"),
            TokenType::CompoundOnlyFlag => Some("str"),
            TokenType::CompoundPermitFlag => Some("str"),
            TokenType::CompoundForbidFlag => Some("str"),
            TokenType::CompoundMoreSuffixes => Some("bool"),
            TokenType::CompoundRoot => Some("str"),
            TokenType::CompoundWordMax => Some("int"),
            TokenType::CompoundForbidDuplication => Some("bool"),
            TokenType::CompoundForbidRepeat => Some("bool"),
            TokenType::CompoundForbidUpperBoundary => Some("bool"),
            TokenType::CompoundForbidTriple => Some("bool"),
            TokenType::CompoundSimplifyTriple => Some("bool"),
            TokenType::CompoundForbidPatterns => Some("table"),
            TokenType::CompoundForceUpper => Some("str"),
            TokenType::CompoundForceSyllable => Some("str"),
            TokenType::CompoundSyllableNumber => Some("str"),
            TokenType::Prefix => Some("table"),
            TokenType::Suffix => Some("table"),
            TokenType::AffixCircumfixFlag => Some("str"),
            TokenType::AffixForbiddenWordFlag => Some("str"),
            TokenType::AffixFullStrip => Some("bool"),
            TokenType::AffixKeepCase => Some("str"),
            TokenType::AffixInputConversion => Some("table"),
            TokenType::AffixOutputConversion => Some("table"),
            TokenType::AffixLemmaPresentDeprecated => Some("str"),
            TokenType::AffixNeededFlag => Some("str"),
            TokenType::AffixPseudoRootFlagDeprecated => Some("str"),
            TokenType::AffixSubstandardFlag => Some("str"),
            TokenType::AffixWordChars => Some("str"),
            TokenType::AffixCheckSharps => Some("bool"),
            TokenType::FileStart => None,
        }
    }

    /// The names of every kind of entry, in the order of the kinds.
    pub fn variants() -> (r: Vec<String>)
        ensures
            r@.len() == all_tokens().len(),
            forall|i: int| 0 <= i < r@.len() ==> #[trigger] r@[i]@ == token_name(all_tokens()[i]),
    {
        let all: Vec<TokenType> = vec![
            TokenType::Encoding,
            TokenType::FlagType,
            TokenType::ComplexPrefixes,
            TokenType::Language,
            TokenType::IgnoreChars,
            TokenType::AffixFlag,
            TokenType::MorphAlias,
            TokenType::NeighborKeys,
            TokenType::TryCharacters,
            TokenType::NoSuggestFlag,
            TokenType::CompoundSuggestionsMax,
            TokenType::NGramSuggestionsMax,
            TokenType::NGramDiffMax,
            TokenType::NGramLimitToDiffMax,
            TokenType::NoSpaceSubs,
            TokenType::KeepTerminationDots,
            TokenType::Replacement,
            TokenType::Mapping,
            TokenType::Phonetic,
            TokenType::WarnRareFlag,
            TokenType::ForbidWarnWords,
            TokenType::Breakpoint,
            TokenType::CompoundRule,
            TokenType::CompoundMinLength,
            TokenType::CompoundFlag,
            TokenType::CompoundBeginFlag,
            TokenType::CompoundEndFlag,
            TokenType::CompoundMiddleFlag,
            TokenType::CompoundOnlyFlag,
            TokenType::CompoundPermitFlag,
            TokenType::CompoundForbidFlag,
            TokenType::CompoundMoreSuffixes,
            TokenType::CompoundRoot,
            TokenType::CompoundWordMax,
            TokenType::CompoundForbidDuplication,
            TokenType::CompoundForbidRepeat,
            TokenType::CompoundForbidUpperBoundary,
            TokenType::CompoundForbidTriple,
            TokenType::CompoundSimplifyTriple,
            TokenType::CompoundForbidPatterns,
            TokenType::CompoundForceUpper,
            TokenType::CompoundForceSyllable,
            TokenType::CompoundSyllableNumber,
            TokenType::Prefix,
            TokenType::Suffix,
            TokenType::AffixCircumfixFlag,
            TokenType::AffixForbiddenWordFlag,
            TokenType::AffixFullStrip,
            TokenType::AffixKeepCase,
            TokenType::AffixInputConversion,
            TokenType::AffixOutputConversion,
            TokenType::AffixLemmaPresentDeprecated,
            TokenType::AffixNeededFlag,
            TokenType::AffixPseudoRootFlagDeprecated,
            TokenType::AffixSubstandardFlag,
            TokenType::AffixWordChars,
            TokenType::AffixCheckSharps,
            TokenType::FileStart,
        ];
        proof {
            assert(all@ =~= all_tokens());
        }
        let mut out: Vec<String> = Vec::new();
        let mut i: usize = 0;
        while i < all.len()
            invariant
                i <= all@.len(),
                all@ == all_tokens(),
                out@.len() == i,
                forall|k: int| 0 <= k < i ==> #[trigger] out@[k]@ == token_name(all@[k]),
            decreases all@.len() - i,
        {
            out.push(all[i].to_string());
            i += 1;
        }
        out
    }
}

/// Every kind of entry, in order.
pub open spec fn all_tokens() -> Seq<TokenType> {
    seq![
        TokenType::Encoding,
        TokenType::FlagType,
        TokenType::ComplexPrefixes,
        TokenType::Language,
        TokenType::IgnoreChars,
        TokenType::AffixFlag,
        TokenType::MorphAlias,
        TokenType::NeighborKeys,
        TokenType::TryCharacters,
        TokenType::NoSuggestFlag,
        TokenType::CompoundSuggestionsMax,
        TokenType::NGramSuggestionsMax,
        TokenType::NGramDiffMax,
        TokenType::NGramLimitToDiffMax,
        TokenType::NoSpaceSubs,
        TokenType::KeepTerminationDots,
        TokenType::Replacement,
        TokenType::Mapping,
        TokenType::Phonetic,
        TokenType::WarnRareFlag,
        TokenType::ForbidWarnWords,
        TokenType::Breakpoint,
        TokenType::CompoundRule,
        TokenType::CompoundMinLength,
        TokenType::CompoundFlag,
        TokenType::CompoundBeginFlag,
        TokenType::CompoundEndFlag,
        TokenType::CompoundMiddleFlag,
        TokenType::CompoundOnlyFlag,
        TokenType::CompoundPermitFlag,
        TokenType::CompoundForbidFlag,
        TokenType::CompoundMoreSuffixes,
        TokenType::CompoundRoot,
        TokenType::CompoundWordMax,
        TokenType::CompoundForbidDuplication,
        TokenType::CompoundForbidRepeat,
        TokenType::CompoundForbidUpperBoundary,
        TokenType::CompoundForbidTriple,
        TokenType::CompoundSimplifyTriple,
        TokenType::CompoundForbidPatterns,
        TokenType::CompoundForceUpper,
        TokenType::CompoundForceSyllable,
        TokenType::CompoundSyllableNumber,
        TokenType::Prefix,
        TokenType::Suffix,
        TokenType::AffixCircumfixFlag,
        TokenType::AffixForbiddenWordFlag,
        TokenType::AffixFullStrip,
        TokenType::AffixKeepCase,
        TokenType::AffixInputConversion,
        TokenType::AffixOutputConversion,
        TokenType::AffixLemmaPresentDeprecated,
        TokenType::AffixNeededFlag,
        TokenType::AffixPseudoRootFlagDeprecated,
        TokenType::AffixSubstandardFlag,
        TokenType::AffixWordChars,
        TokenType::AffixCheckSharps,
        TokenType::FileStart,
    ]
}

/// The encodings an affix file may declare.
#[non_exhaustive]
#[derive(Debug, Clone, Copy, PartialEq, Eq, Structural)]
pub enum EncodingType {
    Utf8,
    Iso8859t1,
    Iso8859t10,
    Iso8859t13,
    Iso8859t15,
    Koi8r,
    Koi8u,
    Cp1251,
    IsciiDevanagari,
}

/// The name of the encoding `e`.
pub open spec fn encoding_type_name(e: EncodingType) -> Seq<char> {
    match e {
        EncodingType::Utf8 => "UTF-8"@,
        EncodingType::Iso8859t1 => "ISO8859-1"@,
        EncodingType::Iso8859t10 => "ISO8859-10"@,
        EncodingType::Iso8859t13 => "ISO8859-13"@,
        EncodingType::Iso8859t15 => "ISO8859-15"@,
        EncodingType::Koi8r => "KOI8-R"@,
        EncodingType::Koi8u => "KOI8-U"@,
        EncodingType::Cp1251 => "cp1251"@,
        EncodingType::IsciiDevanagari => "ISCII-DEVANAGARI"@,
    }
}

/// The encoding whose name is `s`, if any.
pub open spec fn encoding_type_of(s: Seq<char>) -> Option<EncodingType> {
    if s == "UTF-8"@ {
        Some(EncodingType::Utf8)
    } else if s == "ISO8859-1"@ {
        Some(EncodingType::Iso8859t1)
    } else if s == "ISO8859-10"@ {
        Some(EncodingType::Iso8859t10)
    } else if s == "ISO8859-13"@ {
        Some(EncodingType::Iso8859t13)
    } else if s == "ISO8859-15"@ {
        Some(EncodingType::Iso8859t15)
    } else if s == "KOI8-R"@ {
        Some(EncodingType::Koi8r)
    } else if s == "KOI8-U"@ {
        Some(EncodingType::Koi8u)
    } else if s == "cp1251"@ {
        Some(EncodingType::Cp1251)
    } else if s == "ISCII-DEVANAGARI"@ {
        Some(EncodingType::IsciiDevanagari)
    } else {
        None
    }
}

impl EncodingType {
    /// The encoding named `value`.
    pub fn try_from(value: &str) -> (r: Result<EncodingType, NoSuchVariant>)
        ensures
            match encoding_type_of(value@) {
                Some(e) => r == Ok::<EncodingType, NoSuchVariant>(e),
                None => r is Err,
            },
    {
        if str_eq(value, "UTF-8") {
            return Ok(EncodingType::Utf8);
        }
        if str_eq(value, "ISO8859-1") {
            return Ok(EncodingType::Iso8859t1);
        }
        if str_eq(value, "ISO8859-10") {
            return Ok(EncodingType::Iso8859t10);
        }
        if str_eq(value, "ISO8859-13") {
            return Ok(EncodingType::Iso8859t13);
        }
        if str_eq(value, "ISO8859-15") {
            return Ok(EncodingType::Iso8859t15);
        }
        if str_eq(value, "KOI8-R") {
            return Ok(EncodingType::Koi8r);
        }
        if str_eq(value, "KOI8-U") {
            return Ok(EncodingType::Koi8u);
        }
        if str_eq(value, "cp1251") {
            return Ok(EncodingType::Cp1251);
        }
        if str_eq(value, "ISCII-DEVANAGARI") {
            return Ok(EncodingType::IsciiDevanagari);
        }
        Err(NoSuchVariant)
    }

    /// The name of the encoding.
    pub fn to_string(&self) -> (r: String)
        ensures
            r@ == encoding_type_name(*self),
    {
        let s = match self {
            EncodingType::Utf8 => "UTF-8",
            EncodingType::Iso8859t1 => "ISO8859-1",
            EncodingType::Iso8859t10 => "ISO8859-10",
            EncodingType::Iso8859t13 => "ISO8859-13",
            EncodingType::Iso8859t15 => "ISO8859-15",
            EncodingType::Koi8r => "KOI8-R",
            EncodingType::Koi8u => "KOI8-U",
            EncodingType::Cp1251 => "cp1251",
            EncodingType::IsciiDevanagari => "ISCII-DEVANAGARI",
        };
        s.to_owned()
    }
}

} // verus!

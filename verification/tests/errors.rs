use zspell::affix::{Conversion, FlagType};
use zspell::dict::FlagValue;
use zspell::error::{BuildError, ParseError, ParseErrorKind, ParseErrorType};
use zspell::errors::{AffixError, CompileError};
use zspell::Error;

#[test]
fn parse_error_messages() {
    assert_eq!(ParseErrorKind::Boolean.to_string(), "expected a boolean flag with no content");
    assert_eq!(ParseErrorKind::Char(1, 3).to_string(), "expected 1 flags but got 3");
    assert_eq!(
        ParseErrorKind::TableCount { expected: 12, actual: 7 }.to_string(),
        "expected 12 values in table but got 7"
    );
    assert_eq!(ParseErrorKind::NonWhitespace('x').to_string(), "unexpected non-comment characters before line termination starting at 'x'");
    assert_eq!(ParseErrorKind::FlagParse(FlagType::Long).to_string(), "error parsing flag of type 'long'");
    let e = ParseError::new(ParseErrorKind::DictEntry, "bad line", 4, 2);
    assert_eq!(e.to_string(), "parse error at line 4: invalid dictionary entry. Context: 'bad line'");
    let e = ParseError::new_nospan(ParseErrorKind::Personal, "x");
    assert_eq!(e.to_string(), "parse error: error parsing entry in personal dictionary");
    assert_eq!(
        Error::Parse(e).to_string(),
        "parse error: parse error: error parsing entry in personal dictionary"
    );
    assert_eq!(ParseErrorKind::Boolean.help_msg(), Some("boolean types cannot have anything else on their line"));
    assert_eq!(ParseErrorKind::DictEntry.help_msg(), None);
    let int_err = "x1".parse::<u32>().unwrap_err();
    assert_eq!(ParseErrorKind::Int(int_err).to_string(), "failed to parse integer: invalid digit found in string");
}

#[test]
fn build_error_messages() {
    assert_eq!(BuildError::BuilderCfgSpecTwice.to_string(), "configuration specified twice in builder");
    let dup = BuildError::DuplicateFlag { flag: "A".to_owned(), t1: FlagValue::NoSuggest, t2: Some(FlagValue::WarnRare) };
    assert_eq!(dup.to_string(), "flag 'A' used for two or more flags: 'NoSuggest' and 'WarnRare'");
    let dup = BuildError::DuplicateFlag { flag: "A".to_owned(), t1: FlagValue::NoSuggest, t2: None };
    assert_eq!(dup.to_string(), "flag 'A' used for two or more flags: 'NoSuggest' and affix rule");
    assert_eq!(
        Error::Build(BuildError::BuilderCfgUnspecified).to_string(),
        "build error: configuration unspecified twice in builder"
    );
}

#[test]
fn parse_error_type_messages() {
    let t = ParseErrorType::new_bool("COMPLEXPREFIXES", "abc");
    assert_eq!(t.to_string(), "COMPLEXPREFIXES is a boolean flag; got content 'abc'");
    assert_eq!(t.help_msg(), Some("boolean types cannot have anything else on their line"));
    assert_eq!(ParseErrorType::new_char(3, "abc").to_string(), "expected a single character flag but got 3 chars at 'abc'");
    assert_eq!(ParseErrorType::new_table_count(3, 2).to_string(), "expected 3 values in table but got 2");
    let e = "z".parse::<u16>().unwrap_err();
    assert_eq!(ParseErrorType::new_int("z", e.clone()), ParseErrorType::Int { s: "z".to_owned(), err: e.clone() });
    assert_eq!(ParseErrorType::new_table_int("z", e.clone()).to_string(), "failed to parse table item count at 'z': invalid digit found in string");
    assert_eq!(ParseErrorType::PartOfSpeech("qq".to_owned()).help_msg(), None);
}

#[test]
fn affix_errors() {
    assert_eq!(AffixError::NoConversionInput.to_string(), "no conversion input found");
    let e = AffixError::TableCount { expected: "REP".to_owned(), received: "x".to_owned(), missing: 2 };
    assert_eq!(e.to_string(), "expected 2 more items of type REP; received x");
    let int_err = "x".parse::<u8>().unwrap_err();
    assert_eq!(AffixError::from(int_err.clone()), AffixError::NumParse(int_err));
    let c = CompileError::MissingRootWord { rootword: "abc".to_owned() };
    assert_eq!(c.to_string(), "missing root word abc");
}

#[test]
fn conversions_from_table() {
    let table = vec![
        vec!["2".to_owned()],
        vec!["a".to_owned(), "b".to_owned()],
        vec!["c".to_owned(), "d".to_owned(), "e".to_owned()],
    ];
    let res = Conversion::from_processed_token(&table, true).unwrap();
    assert_eq!(res, vec![Conversion::new("a", "b", true), Conversion::new("c", "d", true)]);
    let bad = vec![vec!["1".to_owned()], vec!["a".to_owned()]];
    assert_eq!(Conversion::from_processed_token(&bad, false), Err(AffixError::NoConversionOutput));
    let bad = vec![vec!["1".to_owned()], vec![]];
    assert_eq!(Conversion::from_processed_token(&bad, false), Err(AffixError::NoConversionInput));
}

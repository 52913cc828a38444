use zspell::affix::tokens::{EncodingType, TokenType};
use zspell::affix::FlagType;
use zspell::affix::rule_def::{AffixRuleDef, Rule};
use zspell::affix::RuleType;
use zspell::errors::AffixError;

#[test]
fn test_flagtype_convert_ok() {
    assert_eq!(FlagType::Ascii.str_to_flag("T"), Ok(84));
}

// Spot check deserialization of encoding
#[test]
fn test_encoding_deser() {
    assert_eq!(EncodingType::try_from("UTF-8").unwrap(), EncodingType::Utf8);
    assert_eq!(EncodingType::try_from("ISCII-DEVANAGARI").unwrap(), EncodingType::IsciiDevanagari);
}

// Spot check serialization of encoding
#[test]
fn test_encoding_ser() {
    assert_eq!(EncodingType::Utf8.to_string(), "UTF-8");
    assert_eq!(EncodingType::Iso8859t15.to_string(), "ISO8859-15");
}

// Spot check deserialization of tokens
#[test]
fn test_token_deser() {
    assert_eq!(TokenType::try_from("PFX").unwrap(), TokenType::Prefix);
    assert_eq!(TokenType::try_from("KEEPCASE").unwrap(), TokenType::AffixKeepCase);
}

// Spot check serialization of tokens
#[test]
fn test_token_ser() {
    assert_eq!(TokenType::IgnoreChars.to_string(), "IGNORE");
    assert_eq!(TokenType::MorphAlias.to_string(), "AM");
    println!("{:?}", TokenType::variants());
}

// Spot check properties of tokens
#[test]
fn test_token_props() {
    assert_eq!(TokenType::Encoding.get_str("dtype"), Some("str"));
}

#[test]
fn token_names_and_failures() {
    assert!(TokenType::try_from("pfx").is_err());
    assert!(EncodingType::try_from("utf-8").is_err());
    assert_eq!(TokenType::FileStart.to_string(), "FileStart");
    assert_eq!(TokenType::FileStart.get_str("dtype"), None);
    assert_eq!(TokenType::Prefix.get_str("other"), None);
    assert_eq!(TokenType::variants().len(), 58);
    assert_eq!(TokenType::variants()[0], "SET");
}

#[test]
fn test_rule_def_condition() {
    let mut ard = AffixRuleDef {
        atype: RuleType::Suffix,
        stripping_chars: None,
        affix: "".into(),
        condition: "[^aeiou]y".into(),
        morph_info: Vec::new(),
        condition_re: None,
        condition_always_true: false,
    };
    ard.compile_re();

    // General tests, including with pattern in the middle
    assert_eq!(ard.check_condition("xxxy"), true);
    assert_eq!(ard.check_condition("xxxay"), false);
    assert_eq!(ard.check_condition("xxxyxx"), false);

    // Test with prefix
    ard.condition = "y[^aeiou]".into();
    ard.atype = RuleType::Prefix;
    ard.compile_re();
    assert_eq!(ard.check_condition("yxxx"), true);
    assert_eq!(ard.check_condition("yaxxx"), false);
    assert_eq!(ard.check_condition("xxxyxxx"), false);

    // Test other real rules
    ard.condition = "[sxzh]".into();
    ard.atype = RuleType::Suffix;
    ard.compile_re();
    assert_eq!(ard.check_condition("access"), true);
    assert_eq!(ard.check_condition("abyss"), true);
    assert_eq!(ard.check_condition("accomplishment"), false);
    assert_eq!(ard.check_condition("mmms"), true);
    assert_eq!(ard.check_condition("mmsmm"), false);

    // Check with default condition
    ard.condition = ".".into();
    ard.compile_re();
    assert_eq!(ard.check_condition("xxx"), true);
}

#[test]
fn test_rule_apply() {
    let mut ard = AffixRuleDef {
        atype: RuleType::Suffix,
        stripping_chars: Some("y".into()),
        affix: "zzz".into(),
        condition: "[^aeiou]y".into(),
        morph_info: Vec::new(),
        condition_re: None,
        condition_always_true: false,
    };
    ard.compile_re();

    assert_eq!(ard.apply_pattern("xxxy"), Some("xxxzzz".to_string()));

    ard.atype = RuleType::Prefix;
    ard.condition = "y[^aeiou]".into();
    ard.compile_re();
    assert_eq!(ard.apply_pattern("yxxx"), Some("zzzxxx".to_string()));

    ard.atype = RuleType::Suffix;
    ard.condition = ".".into();
    ard.compile_re();
    assert_eq!(ard.apply_pattern("xxx"), Some("xxxzzz".to_string()));
}

#[test]
fn test_affix_rule_apply_words() {
    let ar = Rule {
        atype: RuleType::Suffix,
        key: "A".into(),
        combine_pfx_sfx: true,
        rules: vec![
            AffixRuleDef::from_table_creation(RuleType::Suffix, "y", "iness", "[^aeiou]y", Vec::new()),
            AffixRuleDef::from_table_creation(RuleType::Suffix, "0", "ness", "[aeiou]y", Vec::new()),
            AffixRuleDef::from_table_creation(RuleType::Suffix, "0", "ness", "[^y]", Vec::new()),
        ],
    };

    assert_eq!(ar.apply("blurry"), Some("blurriness".to_string()));
    assert_eq!(ar.apply("coy"), Some("coyness".to_string()));
    assert_eq!(ar.apply("acute"), Some("acuteness".to_string()));
}

fn token_table(rows: &[&[&str]]) -> Vec<Vec<String>> {
    rows.iter().map(|r| r.iter().map(|s| s.to_string()).collect()).collect()
}

#[test]
fn rule_from_token_table() {
    let table = token_table(&[&["A", "Y", "2"], &["A", "y", "ies", "[^aeiou]y", "po:noun"], &["A", "0", "s", "."]]);
    let rule = Rule::from_processed_token(TokenType::Suffix, &table).unwrap();
    assert_eq!(rule.key, "A");
    assert_eq!(rule.atype, RuleType::Suffix);
    assert!(rule.combine_pfx_sfx);
    assert_eq!(rule.rules.len(), 2);
    assert_eq!(rule.rules[0].stripping_chars, Some("y".to_string()));
    assert_eq!(rule.rules[0].morph_info, vec!["po:noun".to_string()]);
    assert_eq!(rule.rules[1].stripping_chars, None);
    assert!(rule.rules[1].condition_always_true);
    assert_eq!(rule.apply("fly"), Some("flies".to_string()));
    assert_eq!(rule.apply("play"), Some("plays".to_string()));
}

#[test]
fn rule_from_token_table_errors() {
    let good = token_table(&[&["B", "N", "1"], &["B", "0", "re", "."]]);
    assert_eq!(Rule::from_processed_token(TokenType::Language, &good), Err(AffixError::BadTokenType));
    let short = token_table(&[&["B", "N", "1"], &["B", "0", "re"]]);
    assert_eq!(
        Rule::from_processed_token(TokenType::Prefix, &short),
        Err(AffixError::Syntax("B0re".to_string()))
    );
    let no_flag = token_table(&[&[], &["B", "0", "re", "."]]);
    assert_eq!(Rule::from_processed_token(TokenType::Prefix, &no_flag), Err(AffixError::MissingIdentifier));
    let no_mark = token_table(&[&["B"], &["B", "0", "re", "."]]);
    assert_eq!(Rule::from_processed_token(TokenType::Prefix, &no_mark), Err(AffixError::BadCrossProduct));
    let bad_mark = token_table(&[&["B", "X"], &["B", "0", "re", "."]]);
    assert_eq!(Rule::from_processed_token(TokenType::Prefix, &bad_mark), Err(AffixError::BadCrossProduct));
    let prefix = Rule::from_processed_token(TokenType::Prefix, &good).unwrap();
    assert!(!prefix.combine_pfx_sfx);
    assert_eq!(prefix.apply("do"), Some("redo".to_string()));
}

#[test]
fn rule_defs_compare_written_fields() {
    let a = AffixRuleDef::from_table_creation(RuleType::Prefix, "", "un", ".", Vec::new());
    let b = AffixRuleDef::from_table_creation(RuleType::Prefix, "0", "un", ".", Vec::new());
    let c = AffixRuleDef::from_table_creation(RuleType::Prefix, "0", "re", ".", Vec::new());
    assert_eq!(a, b);
    assert_ne!(a, c);
}

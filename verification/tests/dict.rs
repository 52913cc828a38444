use std::sync::Arc;

use zspell::affix::{FlagType, ParsedCfg, RuleType};
use zspell::dict::helpers::{create_affixed_word_map, word_splitter};
use zspell::dict::parser::{parse_dict, parse_personal_dict, DictEntry, PersonalEntry};
use zspell::dict::AfxRule;
use zspell::error::{BuildError, ParseErrorKind};
use zspell::parser_affix::types::{AffixRule, RuleGroup};
use zspell::{DictBuilder, Dictionary, Error, MorphInfo, WordList};

#[test]
fn tests_test_dict_entry_ok() {
    let f1 = FlagType::Utf8;
    let f2 = FlagType::Ascii;

    let s1 = "abcd";
    let s2 = "abcd # comment";
    let s3 = "abcd/ABC";
    let s4 = "abcd/ABC # comment";
    let s5 = "abcd/ABC ip:m1 tp:m2";
    let s6 = "abcd/ABC ip:m1 tp:m2 # comment";
    let s7 = "abcd ip:m1 tp:m2";
    let s8 = "abcd ip:m1 tp:m2 # comment";

    let r1 = DictEntry::new("abcd".to_owned(), &[], Vec::new());
    let r2 = DictEntry::new("abcd".to_owned(), &['A' as u32, 'B' as u32, 'C' as u32], Vec::new());
    let r3 = DictEntry::new(
        "abcd".to_owned(),
        &['A' as u32, 'B' as u32, 'C' as u32],
        vec![MorphInfo::InflecPfx("m1".to_owned()), MorphInfo::TermPfx("m2".to_owned())],
    );
    let r4 = DictEntry::new(
        "abcd".to_owned(),
        &[],
        vec![MorphInfo::InflecPfx("m1".to_owned()), MorphInfo::TermPfx("m2".to_owned())],
    );

    assert_eq!(DictEntry::parse_str(s1, f1, 0), Ok(r1.clone()));
    assert_eq!(DictEntry::parse_str(s2, f1, 0), Ok(r1.clone()));
    assert_eq!(DictEntry::parse_str(s3, f1, 0), Ok(r2.clone()));
    assert_eq!(DictEntry::parse_str(s4, f1, 0), Ok(r2.clone()));
    assert_eq!(DictEntry::parse_str(s5, f1, 0), Ok(r3.clone()));
    assert_eq!(DictEntry::parse_str(s6, f1, 0), Ok(r3.clone()));
    assert_eq!(DictEntry::parse_str(s7, f1, 0), Ok(r4.clone()));
    assert_eq!(DictEntry::parse_str(s8, f1, 0), Ok(r4.clone()));

    assert_eq!(DictEntry::parse_str(s1, f2, 0), Ok(r1.clone()));
    assert_eq!(DictEntry::parse_str(s2, f2, 0), Ok(r1));
    assert_eq!(DictEntry::parse_str(s3, f2, 0), Ok(r2.clone()));
    assert_eq!(DictEntry::parse_str(s4, f2, 0), Ok(r2));
    assert_eq!(DictEntry::parse_str(s5, f2, 0), Ok(r3.clone()));
    assert_eq!(DictEntry::parse_str(s6, f2, 0), Ok(r3));
    assert_eq!(DictEntry::parse_str(s7, f2, 0), Ok(r4.clone()));
    assert_eq!(DictEntry::parse_str(s8, f2, 0), Ok(r4));
}

#[test]
fn test_personal_entry_ok() {
    let s1 = "abcd # comment";
    let s2 = "abcd/ABC # comment";
    let s3 = "*abcd/ABC # comment";
    let s4 = "abcd/ABC ip:m1 tp:m2 # comment";

    let r1 = PersonalEntry::new("abcd", None, Vec::new(), false);
    let r2 = PersonalEntry::new("abcd", Some("ABC"), Vec::new(), false);
    let r3 = PersonalEntry::new("abcd", Some("ABC"), Vec::new(), true);
    let r4 = PersonalEntry::new(
        "abcd",
        Some("ABC"),
        vec![MorphInfo::InflecPfx("m1".to_owned()), MorphInfo::TermPfx("m2".to_owned())],
        false,
    );

    assert_eq!(PersonalEntry::parse_str(s1, 0), Ok(r1));
    assert_eq!(PersonalEntry::parse_str(s2, 0), Ok(r2));
    assert_eq!(PersonalEntry::parse_str(s3, 0), Ok(r3));
    assert_eq!(PersonalEntry::parse_str(s4, 0), Ok(r4));
}

#[test]
fn test_update_personal() {
    let personal_str = r"
        abcd po:verb
        efgh st:something
        *ijkl
        mnop
        qrst
        uvwx st:something
        *yz12 po:verb
        3456
    ";

    let mut d = Dictionary::new(ParsedCfg::default()).unwrap();
    d.parse_update_personal(personal_str, &[]).unwrap();
    assert!(d.wordlist().contains("abcd"));
    assert!(d.wordlist().contains("efgh"));
    assert!(!d.wordlist().contains("ijkl"));
    assert!(d.wordlist_forbidden().contains("ijkl"));
    assert!(d.check("abcd"));
    assert!(d.check("uvwx"));
    assert!(!d.check("ijkl"));
    assert_eq!(d.stem_word("efgh").unwrap(), vec!["efgh", "something"]);
}

#[test]
fn test_create_words() {
    let rul1 = Arc::new(AfxRule::new(RuleType::Prefix, &["aa"], &[], false, None, None));
    let rul2 = Arc::new(AfxRule::new(RuleType::Prefix, &["bb"], &[], true, None, None));
    let rul3 = Arc::new(AfxRule::new(RuleType::Suffix, &["cc", "dd"], &[], true, None, None));

    let conditions: Vec<(Vec<Arc<AfxRule>>, Vec<Arc<AfxRule>>, Vec<&str>)> = vec![
        (vec![rul1.clone()], vec![], vec!["aaxxx"]),
        (vec![rul2.clone()], vec![], vec!["bbxxx"]),
        (vec![], vec![rul3.clone()], vec!["xxxcc", "xxxdd"]),
        (vec![rul1.clone(), rul2.clone()], vec![], vec!["aaxxx", "bbxxx"]),
        (vec![rul1.clone()], vec![rul3.clone()], vec!["aaxxx", "xxxcc", "xxxdd"]),
        (vec![rul2.clone()], vec![rul3.clone()], vec!["bbxxx", "xxxcc", "xxxdd", "bbxxxcc", "bbxxxdd"]),
        (
            vec![rul1.clone(), rul2.clone()],
            vec![rul3.clone()],
            vec!["aaxxx", "bbxxx", "xxxcc", "xxxdd", "bbxxxcc", "bbxxxdd"],
        ),
    ];

    for (i, (pfxs, sfxs, expected_slice)) in conditions.iter().enumerate() {
        let mut dest = WordList::new();
        let stem_rc = Arc::new("xxx".to_string());
        let res = create_affixed_word_map(pfxs, sfxs, &stem_rc, &stem_rc, &mut dest);
        assert!(res.is_ok());

        let mut result = dest.words();
        let mut expected: Vec<String> = expected_slice.iter().map(|s| s.to_string()).collect();
        result.sort_unstable();
        expected.sort_unstable();

        assert_eq!(result, expected, "testing index {i}");
    }
}

#[test]
fn test_word_splitter() {
    let res = word_splitter(r#"the quick brown. Fox Jum-ped "over" (the) lazy dog"#);
    let expected: Vec<(usize, String)> = vec![
        (0, "the"),
        (4, "quick"),
        (10, "brown"),
        (17, "Fox"),
        (21, "Jum"),
        (24, "-"),
        (25, "ped"),
        (30, "over"),
        (37, "the"),
        (42, "lazy"),
        (47, "dog"),
    ]
    .into_iter()
    .map(|(i, s)| (i, s.to_owned()))
    .collect();
    assert_eq!(res, expected);
}

const AFX: &str = "SET UTF-8
NOSUGGEST !
FORBIDDENWORD *
NEEDAFFIX ?

PFX A Y 1
PFX A 0 re .

SFX B Y 2
SFX B 0 s [^s]
SFX B 0 es s
";

const DIC: &str = "6
pine/B
bananas
reptile/AB
forbid/*
hidden/!
only/?B
";

fn sample_dict() -> Dictionary {
    DictBuilder::new().config_str(AFX).dict_str(DIC).build().unwrap()
}

#[test]
fn dict_check_words() {
    let dict = sample_dict();
    assert!(dict.check("pines bananas rereptiles"));
    assert!(dict.check("Pine reptile"));
    assert!(dict.check("hidden"));
    assert!(dict.check("onlys"));
    assert!(!dict.check("only"));
    assert!(!dict.check("forbid"));
    assert!(!dict.check("pine missssspelled"));
    assert!(dict.check_word("repines") == false);
    assert!(dict.check_word("rereptile"));
}

#[test]
fn dict_word_lists() {
    let dict = sample_dict();
    let mut words = dict.wordlist().words();
    words.sort_unstable();
    assert_eq!(
        words,
        vec!["bananas", "onlys", "pine", "pines", "reptile", "reptiles", "rereptile", "rereptiles"]
    );
    assert_eq!(dict.wordlist_nosuggest().words(), vec!["hidden"]);
    assert_eq!(dict.wordlist_forbidden().words(), vec!["forbid"]);
}

#[test]
fn dict_check_indices() {
    let dict = sample_dict();
    let errors = dict.check_indices("pine missspelled forbid");
    assert_eq!(errors, vec![(5, "missspelled".to_owned()), (17, "forbid".to_owned())]);
}

#[test]
fn dict_stem_word() {
    let dict = sample_dict();
    assert_eq!(dict.stem_word("pines").unwrap(), vec!["pine"]);
    assert_eq!(dict.stem_word("bananas").unwrap(), vec!["bananas"]);
    assert!(dict.stem_word("forbid").is_err());
}

#[test]
fn dict_personal_forbids() {
    let dict = DictBuilder::new()
        .config_str(AFX)
        .dict_str(DIC)
        .personal_str("*bananas\nzebra\n")
        .build()
        .unwrap();
    assert!(!dict.check("bananas"));
    assert!(dict.check("zebra"));
}

#[test]
fn builder_errors() {
    assert!(matches!(
        DictBuilder::new().dict_str(DIC).build(),
        Err(Error::Build(BuildError::BuilderCfgUnspecified))
    ));
    assert!(DictBuilder::new().config_str(AFX).dict_str("abc/ZZZZ Q").build().is_err());
}

#[test]
fn builder_try_build_friend() {
    let res = DictBuilder::new().config_str(AFX).personal_str("apple/pine\n").try_build();
    assert!(res.is_none());
    let res = DictBuilder::new().config_str(AFX).personal_str("apple\n").try_build();
    assert!(matches!(res, Some(Ok(_))));
}

#[test]
fn parse_dict_counts_lines() {
    let entries = parse_dict("2\nabc/A\n# comment\n\ndef\n", FlagType::Utf8).unwrap();
    assert_eq!(entries.len(), 2);
    assert_eq!(entries[0].stem(), "abc");
    assert_eq!(entries[0].flags(), &vec!['A' as u32]);
    let err = parse_dict("abc\ndef po:noun xyz\n", FlagType::Utf8).unwrap_err();
    assert!(err.span().is_none());
    assert_eq!(err.err(), &ParseErrorKind::MorphInfoDelim("xyz".to_owned()));
    let personal = parse_personal_dict("abc\n# x\n*def\n").unwrap();
    assert_eq!(personal.len(), 2);
    assert!(personal[1].forbid);
}

#[test]
fn dictionary_integration_test_pfx_sfx() {}

#[test]
fn dict_returning_list() {
    let dict = sample_dict();
    assert_eq!(dict.check_returning_list("pine missspelled, forbid!"), vec!["missspelled", "forbid"]);
    assert!(dict.check_returning_list("pines and bananas").contains(&"and".to_owned()));
}

#[test]
fn rule_groups_apply() {
    let group = RuleGroup {
        flag: "B".to_owned(),
        kind: RuleType::Suffix,
        can_combine: true,
        rules: vec![
            AffixRule::new(RuleType::Suffix, "es", None, Some("s"), Vec::new()).unwrap(),
            AffixRule::new(RuleType::Suffix, "s", None, Some("[^s]"), Vec::new()).unwrap(),
        ],
    };
    assert_eq!(group.apply_pattern("bus"), Some("buses".to_owned()));
    assert_eq!(group.apply_pattern("pine"), Some("pines".to_owned()));
    assert!(group.rules[0].check_condition("bus"));
    assert!(!group.rules[0].check_condition("pine"));
    let strip = AffixRule::new(RuleType::Suffix, "ies", Some("y"), Some("y"), Vec::new()).unwrap();
    assert_eq!(strip.apply_pattern("pony", RuleType::Suffix), Some("ponies".to_owned()));
    assert_eq!(strip.apply_pattern("pone", RuleType::Suffix), None);
}

#[test]
fn dict_suggestions() {
    let dict = sample_dict();
    assert_eq!(dict.suggest_word("pine"), Ok(()));
    let mut sugs = dict.suggest_word("pinez").unwrap_err();
    sugs.sort_unstable();
    assert_eq!(sugs, vec!["pine", "pines"]);
    assert_eq!(dict.suggest_word("qqqqqqqq"), Err(Vec::<String>::new()));
}

#[test]
fn dict_suggest_indices() {
    let dict = sample_dict();
    let found = dict.suggest_indices("pine pinez qqqq");
    assert_eq!(found.len(), 2);
    assert_eq!(found[0].0, 5);
    assert_eq!(found[0].1, "pinez");
    let mut sugs = found[0].2.clone();
    sugs.sort_unstable();
    assert_eq!(sugs, vec!["pine", "pines"]);
    assert_eq!(found[1], (11, "qqqq".to_owned(), Vec::<String>::new()));
    assert!(dict.suggest_indices("pine pines").is_empty());
}

#[test]
fn rule_patterns_keep_their_conditions() {
    let plain = AfxRule::new(RuleType::Suffix, &["cc", "dd"], &[], true, None, None);
    assert_eq!(plain.apply_pattern("xxx"), Some("xxxcc".to_owned()));
    assert_eq!(plain.apply_patterns("xxx"), vec!["xxxcc".to_owned(), "xxxdd".to_owned()]);

    let cond = AfxRule::new(RuleType::Suffix, &["es", "s"], &["s", "[^s]"], false, None, None);
    assert_eq!(cond.apply_pattern("bus"), Some("buses".to_owned()));
    assert_eq!(cond.apply_pattern("pine"), Some("pines".to_owned()));
    assert_eq!(cond.apply_patterns("bus"), vec!["buses".to_owned()]);

    // Only the first pattern has a condition; the second always applies.
    let partly = AfxRule::new(RuleType::Prefix, &["un", "re"], &["x"], false, None, None);
    assert_eq!(partly.apply_pattern("do"), Some("redo".to_owned()));
    assert_eq!(partly.apply_patterns("xo"), vec!["unxo".to_owned(), "rexo".to_owned()]);
    assert_eq!(partly.apply_patterns("do"), vec!["redo".to_owned()]);
}

#[test]
fn duplicate_flags_name_their_text() {
    let afx = "PFX A Y 1\nPFX A 0 re .\n\nPFX A Y 1\nPFX A 0 un .\n";
    let cfg = ParsedCfg::load_from_str(afx).unwrap();
    match cfg.compile_flags() {
        Err(Error::Build(BuildError::DuplicateFlag { flag, t2, .. })) => {
            assert_eq!(flag, "A");
            assert!(t2.is_none());
        },
        other => panic!("unexpected {other:?}"),
    }
    let cfg = ParsedCfg::load_from_str("NOSUGGEST Z\nFORBIDDENWORD Z\n").unwrap();
    match cfg.compile_flags() {
        Err(Error::Build(BuildError::DuplicateFlag { flag, t2, .. })) => {
            assert_eq!(flag, "Z");
            assert!(t2.is_some());
        },
        other => panic!("unexpected {other:?}"),
    }
}

#[test]
fn word_pieces_are_words_in_order() {
    let pieces = word_splitter("the quick brown. Fox Jum-ped \"over\" (the) lazy dog");
    let words: Vec<&str> = pieces.iter().map(|(_, w)| w.as_str()).collect();
    assert_eq!(words, vec!["the", "quick", "brown", "Fox", "Jum", "-", "ped", "over", "the", "lazy", "dog"]);
    assert!(pieces.iter().all(|(_, w)| !w.is_empty()));
    assert!(pieces.windows(2).all(|p| p[0].0 < p[1].0));
    assert_eq!(pieces[3], (17, "Fox".to_owned()));
}

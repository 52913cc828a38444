use zspell::affix::Encoding;
use zspell::parser_affix::AffixNode;
use zspell::affix::{FlagType, RuleType};
use zspell::dict::AfxRulePattern;
use zspell::download::{get_dl_url_from_tree, split_url_sha, RemoteEntry};
use zspell::{levenshtein, levenshtein_limit, DictBuilder};

#[test]
fn flags_read_back_what_they_write() {
    for (ft, v) in [(FlagType::Ascii, 84u32), (FlagType::Utf8, 0x00e9), (FlagType::Long, 0x4142), (FlagType::Number, 1234)] {
        let text = ft.flag_to_str(v);
        assert_eq!(ft.str_to_flag(&text), Ok(v));
    }
    assert_eq!(FlagType::Long.flag_to_str(FlagType::Long.str_to_flag("Zq").unwrap()), "Zq");
}

#[test]
fn affix_patterns_undo() {
    let pfx = AfxRulePattern::new("un", Some("re"));
    assert_eq!(pfx.apply_pattern("redo", RuleType::Prefix), Some("undo".to_owned()));
    let sfx = AfxRulePattern::new("ies", Some("y"));
    assert_eq!(sfx.apply_pattern("pony", RuleType::Suffix), Some("ponies".to_owned()));
    assert_eq!(sfx.apply_pattern("cat", RuleType::Suffix), Some("caties".to_owned()));
}

#[test]
fn distances_are_symmetric_and_capped() {
    assert_eq!(levenshtein("kitten", "sitting"), levenshtein("sitting", "kitten"));
    assert_eq!(levenshtein("flaw", "flaw"), 0);
    assert_eq!(levenshtein("", "abc"), 3);
    assert_eq!(levenshtein_limit("kitten", "sitting", 2), 2);
}

#[test]
fn locations_split_back() {
    let listing = vec![RemoteEntry {
        name: Some("en.dic".to_owned()),
        kind: Some("file".to_owned()),
        url: None,
        sha: Some("0123abcd".to_owned()),
        download_url: Some("https://dl/en.dic$x".to_owned()),
    }];
    let loc = get_dl_url_from_tree(&listing, ".dic").unwrap();
    assert_eq!(split_url_sha(&loc), ("0123abcd".to_owned(), "https://dl/en.dic$x".to_owned()));
}

#[test]
fn forbidden_words_stay_rejected() {
    let aff = "FORBIDDENWORD *\nSFX B Y 1\nSFX B 0 s .\n";
    let dict = DictBuilder::new()
        .config_str(aff)
        .dict_str("cat/B\ndog\n")
        .personal_str("*cat\ncow\n")
        .build()
        .unwrap();
    assert!(!dict.check_word("cat"));
    assert!(dict.check_word("cats"));
    assert!(dict.check_word("dog"));
    assert!(dict.check_word("cow"));
    assert!(dict.check_word("Dog"));
}

#[test]
fn encodings_read_back_their_names() {
    for e in [
        Encoding::Utf8,
        Encoding::Iso8859t1,
        Encoding::Iso8859t10,
        Encoding::Iso8859t13,
        Encoding::Iso8859t15,
        Encoding::Koi8R,
        Encoding::Koi8U,
        Encoding::Cp1251,
        Encoding::IsciiDevanagari,
    ] {
        assert_eq!(Encoding::try_from(e.as_str()), Ok(e));
        assert_eq!(Encoding::try_from(e.as_str().to_lowercase().as_str()), Ok(e));
    }
    assert!(Encoding::try_from("utf-16").is_err());
}

#[test]
fn entry_keys_follow_the_kind() {
    let a = AffixNode::Name("one".to_owned());
    let b = AffixNode::Name("two".to_owned());
    let c = AffixNode::Version("one".to_owned());
    assert_eq!(a.name_str(), b.name_str());
    assert_ne!(a.name_str(), c.name_str());
    assert_ne!(AffixNode::CompoundFlag("A".to_owned()).name_str(), AffixNode::CompoundRootFlag("A".to_owned()).name_str());
}

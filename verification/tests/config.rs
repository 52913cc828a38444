use zspell::affix::{Conversion, Encoding};
use zspell::parser_affix::{parse_affix, AffixNode};
use zspell::Config;

#[test]
fn config_from_nothing_is_default() {
    assert_eq!(Config::from_parsed(Vec::new()), Config::default());
}

#[test]
fn config_takes_each_entry() {
    let cfg = Config::from_parsed(vec![
        AffixNode::Encoding(Encoding::Iso8859t1),
        AffixNode::Name("English".to_owned()),
        AffixNode::NoSuggestFlag("!".to_owned()),
        AffixNode::CompoundMinLen(4),
        AffixNode::KeepTermDots,
    ]);
    assert_ne!(cfg, Config::default());
    let text = format!("{cfg:?}");
    assert!(text.contains("encoding: Iso8859t1"));
    assert!(text.contains("name: \"English\""));
    assert!(text.contains("nosuggest_flag: Some(\"!\")"));
    assert!(text.contains("compound_min_length: 4"));
    assert!(text.contains("keep_term_dots: true"));
    assert!(text.contains("no_split_suggestions: false"));
}

#[test]
fn config_later_entry_wins() {
    let twice = Config::from_parsed(vec![
        AffixNode::Version("1.0".to_owned()),
        AffixNode::Version("2.0".to_owned()),
    ]);
    let once = Config::from_parsed(vec![AffixNode::Version("2.0".to_owned())]);
    assert_eq!(twice, once);
    assert!(format!("{twice:?}").contains("version: \"2.0\""));
}

#[test]
fn config_deprecated_entries_change_nothing() {
    let cfg = Config::from_parsed(vec![
        AffixNode::AfxLemmaPresentFlag("X".to_owned()),
        AffixNode::AfxPseudoRootFlag("Y".to_owned()),
    ]);
    assert_eq!(cfg, Config::default());
}

#[test]
fn config_keeps_every_rule_group() {
    let src = "PFX A Y 1\nPFX A 0 re .\n\nSFX B N 1\nSFX B 0 s .\n\nREP 1\nREP ph f\n";
    let nodes = parse_affix(src).unwrap();
    assert_eq!(nodes.len(), 3);
    let cfg = Config::from_parsed(nodes);
    let text = format!("{cfg:?}");
    let pfx = text.find("flag: \"A\"").unwrap();
    let sfx = text.find("flag: \"B\"").unwrap();
    assert!(pfx < sfx);
    let reps = Config::from_parsed(vec![AffixNode::Replacement(vec![Conversion {
        input: "ph".to_owned(),
        output: "f".to_owned(),
        bidirectional: false,
    }])]);
    assert!(format!("{reps:?}").contains("input: \"ph\""));
}

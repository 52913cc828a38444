use zspell::test_manager::TestManager;

const SAMPLE: &str = "
afx_str
====
SET UTF-8
====
dic_str
====
2
apple
banana
====
check_valid
====
apple
# a comment
banana apple
====
check_invalid
====
appel
====
wordlist
====
apple
banana
====
suggestions
====
appl > apple | apples
banan>banana
====
end
====
ignored
====
";

#[test]
fn load_sections() {
    let m = TestManager::load_str(SAMPLE);
    assert_eq!(m.afx_str(), "\nSET UTF-8\n");
    assert_eq!(m.dic_str(), "\n2\napple\nbanana\n");
    assert_eq!(m.check_valid(), &vec!["apple".to_owned(), "banana apple".to_owned()]);
    assert_eq!(m.check_invalid(), &vec!["appel".to_owned()]);
    assert_eq!(m.wordlist(), Some(&vec!["apple".to_owned(), "banana".to_owned()]));
    assert_eq!(m.wordlist_nosuggest(), None);
    assert_eq!(m.wordlist_forbidden(), None);
    assert_eq!(
        m.suggestions(),
        Some(&vec![
            ("appl ".to_owned(), vec!["apple".to_owned(), "apples".to_owned()]),
            ("banan".to_owned(), vec!["banana".to_owned()]),
        ])
    );
}

use zspell::{levenshtein, levenshtein_limit, levenshtein_limit_weight, levenshtein_limit_weight_iter, levenshtein_weight};

#[test]
fn test_levenshtein_empty() {
    assert_eq!(levenshtein("", ""), 0);
}

#[test]
fn test_levenshtein_equal() {
    assert_eq!(levenshtein("abcdef", "abcdef"), 0);
}

#[test]
fn test_levenshtein_one_empty() {
    assert_eq!(levenshtein("abcdef", ""), 6);
    assert_eq!(levenshtein("", "abcdef"), 6);
}

#[test]
fn test_levenshtein_basic() {
    assert_eq!(levenshtein("abcd", "ab"), 2);
    assert_eq!(levenshtein("abcd", "ad"), 2);
    assert_eq!(levenshtein("abcd", "cd"), 2);
    assert_eq!(levenshtein("abcd", "a"), 3);
    assert_eq!(levenshtein("abcd", "c"), 3);
    assert_eq!(levenshtein("abcd", "accd"), 1);
    assert_eq!(levenshtein("kitten", "sitting"), 3);
    assert_eq!(levenshtein("to be a bee", "not to bee"), 6);
}

#[test]
fn test_levenshtein_limit_one_empty() {
    assert_eq!(levenshtein_limit("abcdef", "", 3), 3);
    assert_eq!(levenshtein_limit("", "abcdef", 3), 3);
    assert_eq!(levenshtein_limit("abcdef", "", 8), 6);
    assert_eq!(levenshtein_limit("", "abcdef", 8), 6);
}

#[test]
fn test_levenshtein_limit() {
    assert_eq!(levenshtein_limit("abcdef", "000000", 3), 3);
    assert_eq!(levenshtein_limit("ab", "0000", 3), 3);
}

#[test]
fn test_levenshtein_weight_insertion() {
    assert_eq!(levenshtein_weight("", "a", 10, 1, 1), 10);
    assert_eq!(levenshtein_weight("a", "", 10, 1, 1), 1);
    assert_eq!(levenshtein_weight("", "ab", 10, 1, 1), 20);
    assert_eq!(levenshtein_weight("ab", "", 10, 1, 1), 2);
    assert_eq!(levenshtein_weight("ab", "abcd", 10, 1, 1), 20);
    assert_eq!(levenshtein_weight("kitten", "sitting", 10, 1, 1), 12);
}

#[test]
fn test_levenshtein_weight_deletion() {
    assert_eq!(levenshtein_weight("", "a", 1, 10, 1), 1);
    assert_eq!(levenshtein_weight("a", "", 1, 10, 1), 10);
    assert_eq!(levenshtein_weight("", "ab", 1, 10, 1), 2);
    assert_eq!(levenshtein_weight("ab", "", 1, 10, 1), 20);
    assert_eq!(levenshtein_weight("abc", "ac", 1, 10, 2), 10);
    assert_eq!(levenshtein_weight("abcd", "ac", 1, 10, 2), 20);
    assert_eq!(levenshtein_weight("kitten", "sitting", 1, 10, 1), 3);
}

#[test]
fn test_levenshtein_weight_substitution() {
    assert_eq!(levenshtein_weight("a", "b", 10, 10, 5), 5);
    assert_eq!(levenshtein_weight("abcd", "acc", 10, 10, 2), 12);
    assert_eq!(levenshtein_weight("kitten", "sitting", 4, 3, 2), 8);
}

#[test]
fn levenshtein_documented_examples() {
    assert_eq!(levenshtein("this is a book", "i am a cook"), 6);
    assert_eq!(levenshtein_limit("superlongstring", "", 3), 3);
    assert_eq!(levenshtein_limit("abcdefg", "mmmmmmm", 3), 3);
    assert_eq!(levenshtein_weight("kitten", "sitting", 4, 3, 2), 8);
    assert_eq!(levenshtein_limit_weight("kitten", "sitting", 6, 4, 3, 2), 6);
    assert_eq!(levenshtein_limit_weight("kitten", "sitting", 100, 4, 3, 2), 8);
    // a four-scalar grapheme counts as one item
    assert_eq!(levenshtein_limit_weight("🏴‍☠️", "A", 100, 1, 1, 1), 1);
    let a: Vec<u32> = "🏴‍☠️".chars().map(|c| c as u32).collect();
    let b: Vec<u32> = "A".chars().map(|c| c as u32).collect();
    assert_eq!(levenshtein_limit_weight_iter(a, b, 100, 1, 1, 1), 4);
}

#[test]
fn levenshtein_limit_does_not_cut_equal_strings() {
    // the limit caps the distance; it never raises it
    assert_eq!(levenshtein_limit("abc", "abc", 2), 0);
    assert_eq!(levenshtein_limit("kitten", "sitting", 2), 2);
    assert_eq!(levenshtein_limit("kitten", "sitting", 3), 3);
    assert_eq!(levenshtein_limit("kitten", "sitting", 4), 3);
}

#[test]
fn levenshtein_symmetric_on_examples() {
    for (a, b) in [("kitten", "sitting"), ("to be a bee", "not to bee"), ("", "abc")] {
        assert_eq!(levenshtein(a, b), levenshtein(b, a));
        assert_eq!(levenshtein(a, a), 0);
    }
}

#[test]
fn lev_command_distance() {
    // The distance that the `lev` command prints for these two phrases.
    assert_eq!(levenshtein_limit("the quick brown fox", "the slow brown flocks", 1000), 9);
    assert_eq!(levenshtein("the quick brown fox", "the slow brown flocks"), 9);
}

use quiz_lookup::text::{contains, copy_texts, same_text, same_texts};

#[test]
fn fragment_is_found_at_start_middle_and_end() {
    assert!(contains("Capital of France?", "Capital"));
    assert!(contains("Capital of France?", "al of Fr"));
    assert!(contains("Capital of France?", "France?"));
    assert!(contains("Capital of France?", "Capital of France?"));
    assert!(contains("aaab", "aab"));
    assert!(contains("abababc", "ababc"));
}

#[test]
fn fragment_that_is_absent_is_not_found() {
    assert!(!contains("Capital of France?", "capital"));
    assert!(!contains("Capital of France?", "Capital of France??"));
    assert!(!contains("Capital of France?", "Francs"));
    assert!(!contains("", "a"));
    assert!(!contains("abab", "abb"));
}

#[test]
fn empty_fragment_is_found_everywhere() {
    assert!(contains("", ""));
    assert!(contains("a", ""));
    assert!(contains("\u{00e9}", ""));
}

#[test]
fn containment_counts_characters_beyond_ascii() {
    assert!(contains("h\u{00e9}llo w\u{00f6}rld", "w\u{00f6}"));
    assert!(contains("\u{65e5}\u{672c}\u{8a9e}", "\u{672c}"));
    assert!(!contains("h\u{00e9}llo", "e"));
    assert!(!contains("\u{00e9}", "\u{00e8}"));
    assert!(!contains("\u{65e5}\u{672c}", "\u{672c}\u{65e5}"));
    assert!(contains("a\u{1f600}b", "\u{1f600}b"));
}

#[test]
fn containment_agrees_with_the_standard_search() {
    let texts = ["", "a", "ab", "aab", "abab", "b\u{00e9}b\u{00e9}", "\u{00e9}", "2+2?", "+2", "?"];
    for haystack in texts {
        for needle in texts {
            assert_eq!(
                contains(haystack, needle),
                haystack.contains(needle),
                "{:?} in {:?}",
                needle,
                haystack
            );
        }
    }
}

#[test]
fn same_text_is_equality_of_contents() {
    assert!(same_text("", ""));
    assert!(same_text("exit", "exit"));
    assert!(same_text("\u{00e9}t\u{00e9}", "\u{00e9}t\u{00e9}"));
    assert!(!same_text("exit", "exit "));
    assert!(!same_text("exit", "Exit"));
    assert!(!same_text("exit", "exi"));
    assert!(!same_text("", "a"));
    assert!(!same_text("\u{00e9}", "e"));
}

#[test]
fn lists_of_texts_are_compared_in_order() {
    let a = vec!["x".to_string(), "y".to_string()];
    let b = vec!["y".to_string(), "x".to_string()];
    assert!(same_texts(&a, &a.clone()));
    assert!(!same_texts(&a, &b));
    assert!(!same_texts(&a, &a[..1].to_vec()));
    assert!(same_texts(&Vec::new(), &Vec::new()));
    assert_eq!(copy_texts(&a), a);
    assert_eq!(copy_texts(&Vec::new()), Vec::<String>::new());
}

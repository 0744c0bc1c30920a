use power_monitor::text::{contains_chars, contains_str, same_text, to_chars};

#[test]
fn characters_come_out_in_order() {
    assert_eq!(to_chars("aé✓"), vec!['a', 'é', '✓']);
    assert_eq!(to_chars(""), Vec::<char>::new());
}

#[test]
fn the_empty_pattern_is_everywhere() {
    assert!(contains_str("", ""));
    assert!(contains_str("abc", ""));
    assert!(contains_chars(&[], &[]));
    assert!(contains_chars(&['a', 'b', 'c'], &['b', 'c']));
    assert!(!contains_chars(&['a', 'b', 'c'], &['c', 'b']));
}

#[test]
fn a_pattern_longer_than_the_text_is_nowhere() {
    assert!(!contains_str("ab", "abc"));
    assert!(!contains_str("", "a"));
}

#[test]
fn patterns_are_found_wherever_they_stand() {
    assert!(contains_str("abcdef", "abc"));
    assert!(contains_str("abcdef", "cde"));
    assert!(contains_str("abcdef", "def"));
    assert!(contains_str("abcdef", "abcdef"));
    assert!(!contains_str("abcdef", "abd"));
    assert!(!contains_str("abcdef", "efg"));
    assert!(contains_str("aaab", "aab"));
    assert!(!contains_str("ababab", "bb"));
}

#[test]
fn search_agrees_with_the_standard_library() {
    let texts = ["", "a", "cpu", "gpu cpu", "aaaa", "abcabcabd", "x✓y✓z", "ane"];
    let patterns = ["", "a", "aa", "cpu", "gpu", "abd", "✓y", "z", "zz"];
    for text in texts.iter() {
        for pattern in patterns.iter() {
            assert_eq!(contains_str(text, pattern), text.contains(pattern));
        }
    }
}

#[test]
fn texts_are_the_same_when_every_character_is() {
    assert!(same_text("", ""));
    assert!(same_text("mJ", "mJ"));
    assert!(!same_text("mJ", "mj"));
    assert!(!same_text("mJ", "mJ "));
    assert!(!same_text("mJ", ""));
    assert!(!same_text("uJ", "nJ"));
}

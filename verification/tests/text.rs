use hypertype::collate::is_before;
use hypertype::text::{
    chars_of, contains, is_control, is_white_space, remove_spaces, same_text, to_ascii_lowercase,
    trim, word_count,
};

#[test]
fn character_classes_agree_with_the_standard_library() {
    for n in 0..=0x10ffffu32 {
        if let Some(c) = char::from_u32(n) {
            assert_eq!(is_white_space(c), c.is_whitespace(), "{n:x}");
            assert_eq!(is_control(c), c.is_control(), "{n:x}");
        }
    }
}

fn samples() -> Vec<String> {
    let mut v = Vec::new();
    for s in [
        "",
        " ",
        "a",
        " a",
        "a ",
        "\u{3000}a b\u{a0}",
        "\t x  y \r\n z",
        "Straße ÄÖ",
        "ABCxyz[]@`{",
        "aab",
        "\u{1f600} \u{1f600}",
        "\u{200b}x\u{200b}",
    ] {
        v.push(s.to_string());
    }
    v
}

#[test]
fn string_functions_agree_with_the_standard_library() {
    for s in samples() {
        assert_eq!(trim(&s), s.trim());
        assert_eq!(word_count(&s), s.split_whitespace().count());
        assert_eq!(to_ascii_lowercase(&s), s.to_ascii_lowercase());
        assert_eq!(remove_spaces(&s), s.replace(' ', ""));
        assert_eq!(chars_of(&s), s.chars().collect::<Vec<char>>());
        for t in samples() {
            assert_eq!(same_text(&s, &t), s == t);
            assert_eq!(contains(&s, &t), s.contains(t.as_str()));
            assert_eq!(is_before(&s, &t), s < t);
        }
    }
}

#[test]
fn substrings_are_found_after_false_starts() {
    assert!(contains("aaab", "aab"));
    assert!(contains("xaab", "aab"));
    assert!(!contains("aaba", "abb"));
    assert!(contains("x", ""));
    assert!(!contains("", "x"));
}

#[test]
fn order_is_by_code_point() {
    assert!(is_before("Z", "a"));
    assert!(is_before("a", "ab"));
    assert!(!is_before("ab", "a"));
    assert!(!is_before("a", "a"));
    assert!(is_before("\u{ffff}", "\u{10000}"));
}

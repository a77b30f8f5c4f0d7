use knowledge_base::json::{tags_from_json, tags_to_json};
use knowledge_base::text::{contains_str, find_bytes, find_str, first_chars, trims_to_empty};

#[test]
fn blank_texts() {
    assert!(trims_to_empty(""));
    assert!(trims_to_empty("   "));
    assert!(trims_to_empty(" \t\r\n"));
    assert!(trims_to_empty("\u{3000}\u{a0}"));
    assert!(!trims_to_empty(" a "));
    assert!(!trims_to_empty("x"));
}

#[test]
fn find_first_occurrence() {
    assert_eq!(find_str("abcabc", "bc"), Some(1));
    assert_eq!(find_str("abcabc", "x"), None);
    assert_eq!(find_str("abc", ""), Some(0));
    assert_eq!(find_str("", "a"), None);
    // byte offsets, as str::find gives them
    assert_eq!(find_str("привет мир", "мир"), Some(13));
    assert_eq!(find_bytes(&[1, 2, 3, 2, 3], &[2, 3]), Some(1));
}

#[test]
fn contains_substring() {
    assert!(contains_str("UNIQUE constraint failed: pages.title", "UNIQUE constraint failed"));
    assert!(!contains_str("unique constraint failed", "UNIQUE constraint failed"));
}

#[test]
fn first_characters() {
    assert_eq!(first_chars("привет", 3), "при");
    assert_eq!(first_chars("abc", 10), "abc");
    assert_eq!(first_chars("abc", 0), "");
}

#[test]
fn tags_read_from_json() {
    assert_eq!(tags_from_json(r#"["rust","верус"]"#), vec!["rust".to_string(), "верус".to_string()]);
    assert_eq!(tags_from_json("[]"), Vec::<String>::new());
    assert_eq!(tags_from_json("not json"), Vec::<String>::new());
    assert_eq!(tags_from_json("[1, 2]"), Vec::<String>::new());
}

#[test]
fn tags_written_as_json() {
    let tags = vec!["a".to_string(), "b \"c\"".to_string()];
    assert_eq!(tags_to_json(&tags), r#"["a","b \"c\""]"#);
    assert_eq!(tags_to_json(&Vec::new()), "[]");
}

#[test]
fn tags_round_trip() {
    let tags = vec!["x".to_string(), "тег".to_string(), "quote\"d\n".to_string()];
    assert_eq!(tags_from_json(&tags_to_json(&tags)), tags);
}

#[test]
fn white_space_agrees_with_std() {
    for code in 0u32..=0x10FFFF {
        if let Some(c) = char::from_u32(code) {
            let s = c.to_string();
            assert_eq!(trims_to_empty(&s), c.is_whitespace(), "U+{:04X}", code);
        }
    }
}

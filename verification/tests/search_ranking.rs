use knowledge_base::ranking::{rank_hits, sort_by_snippet_len, MAX_RESULTS};
use knowledge_base::search::{
    excerpt_of, relevance_score, search_row, search_rows, SearchError, SearchQuery, SearchResult,
    SearchRow,
};

fn hit(id: i64, snippet: &str) -> SearchResult {
    SearchResult { id, title: format!("t{}", id), tags: Vec::new(), snippet: snippet.to_string() }
}

fn search_row_of(id: i64, title: &str, content: &str, tags: &str) -> SearchRow {
    SearchRow { id, title: title.to_string(), content: content.to_string(), tags: tags.to_string() }
}

#[test]
fn blank_query_refused() {
    assert!(SearchQuery { q: "   ".to_string() }.is_blank());
    assert!(SearchQuery { q: String::new() }.is_blank());
    assert!(!SearchQuery { q: " rust ".to_string() }.is_blank());
}

#[test]
fn relevance_weights() {
    assert_eq!(relevance_score(Some(10), Some(5), &vec![Some(3), None, Some(1)]), Some(43));
    assert_eq!(relevance_score(None, None, &vec![]), Some(0));
    assert_eq!(relevance_score(None, Some(-4), &vec![None]), Some(-4));
}

#[test]
fn relevance_overflow() {
    assert_eq!(relevance_score(Some(i64::MAX), None, &vec![]), None);
    assert_eq!(relevance_score(None, Some(i64::MAX), &vec![Some(1)]), None);
    assert_eq!(relevance_score(Some(i64::MAX / 3), None, &vec![]), Some(i64::MAX / 3 * 3));
}

#[test]
fn excerpt_whole_short_content() {
    assert_eq!(excerpt_of("Hello world", "hello world", "world"), Some("Hello world".to_string()));
}

#[test]
fn excerpt_window_with_ellipses() {
    let content = format!("{}needle{}", "a".repeat(50), "b".repeat(50));
    let expected = format!("...{}needle{}...", "a".repeat(30), "b".repeat(30));
    assert_eq!(excerpt_of(&content, &content, "needle"), Some(expected));
}

#[test]
fn excerpt_without_match_is_preview() {
    let content = "x".repeat(120);
    let expected = format!("{}...", "x".repeat(100));
    assert_eq!(excerpt_of(&content, &content, "zzz"), Some(expected));
    assert_eq!(excerpt_of("short", "short", "zzz"), Some("short...".to_string()));
}

#[test]
fn excerpt_window_off_char_boundary() {
    // the match is at byte 41; 30 bytes before it falls inside a Cyrillic letter
    let content = format!("{}ab", "а".repeat(20));
    assert_eq!(excerpt_of(&content, &content, "b"), None);
}

#[test]
fn excerpt_uses_lowered_content_offsets() {
    let content = "Hello World";
    assert_eq!(excerpt_of(content, "hello world", "world"), Some("Hello World".to_string()));
}

#[test]
fn sort_longest_snippet_first_and_stable() {
    let items = vec![hit(1, "aa"), hit(2, "aaaa"), hit(3, "bb"), hit(4, "a"), hit(5, "cccc")];
    let ids: Vec<i64> = sort_by_snippet_len(items).iter().map(|h| h.id).collect();
    assert_eq!(ids, vec![2, 5, 1, 3, 4]);
}

#[test]
fn sort_by_bytes_not_chars() {
    // "яя" is 4 bytes, "abc" is 3
    let items = vec![hit(1, "abc"), hit(2, "яя")];
    let ids: Vec<i64> = sort_by_snippet_len(items).iter().map(|h| h.id).collect();
    assert_eq!(ids, vec![2, 1]);
}

#[test]
fn rank_cuts_to_first_page() {
    let items: Vec<SearchResult> = (0..25).map(|i| hit(i, &"x".repeat(i as usize))).collect();
    let out = rank_hits(items);
    assert_eq!(out.len(), MAX_RESULTS);
    let ids: Vec<i64> = out.iter().map(|h| h.id).collect();
    let expected: Vec<i64> = (5..25).rev().collect();
    assert_eq!(ids, expected);
}

#[test]
fn rank_fewer_than_a_page() {
    let out = rank_hits(vec![hit(1, "a"), hit(2, "bb")]);
    let ids: Vec<i64> = out.iter().map(|h| h.id).collect();
    assert_eq!(ids, vec![2, 1]);
}

#[test]
fn search_finds_matching_pages() {
    let rows = vec![
        search_row_of(1, "Verus verification guide", "How to verify Rust code with Verus.", r#"["verus","rust"]"#),
        search_row_of(2, "Cooking", "Soup and bread.", "[]"),
    ];
    let out = search_rows(&rows, "Verus").unwrap();
    assert_eq!(out.len(), 1);
    assert_eq!(out[0].id, 1);
    assert_eq!(out[0].title, "Verus verification guide");
    assert_eq!(out[0].tags, vec!["verus".to_string(), "rust".to_string()]);
    assert_eq!(out[0].snippet, "How to verify Rust code with Verus.");
}

#[test]
fn search_nothing_matches() {
    let rows = vec![search_row_of(1, "Cooking", "Soup and bread.", "[]")];
    assert!(search_rows(&rows, "zzzz").unwrap().is_empty());
    assert!(search_rows(&Vec::new(), "anything").unwrap().is_empty());
}

#[test]
fn search_orders_by_snippet_length() {
    let rows = vec![
        search_row_of(1, "database", "database", "[]"),
        search_row_of(2, "database", "a long text about the database and its indexes", "[]"),
    ];
    let out = search_rows(&rows, "database").unwrap();
    let ids: Vec<i64> = out.iter().map(|h| h.id).collect();
    assert_eq!(ids, vec![2, 1]);
}

#[test]
fn search_window_off_boundary_is_an_error() {
    let content = format!("{}ab", "а".repeat(20));
    let rows = vec![search_row_of(1, "b", &content, r#"["b"]"#)];
    assert_eq!(search_rows(&rows, "b").unwrap_err(), SearchError::ExcerptOutOfBounds);
}

#[test]
fn search_row_skips_irrelevant() {
    let row = search_row_of(9, "Cooking", "Soup", "[]");
    assert!(search_row(&row, "zzz").unwrap().is_none());
}

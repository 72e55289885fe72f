use tincta::search::{SearchMessage, SearchState, SearchSummary};

fn make_search(query: &str, replacement: &str, use_regex: bool, case_sensitive: bool) -> SearchState {
    SearchState {
        query: query.to_string(),
        replacement: replacement.to_string(),
        use_regex,
        case_sensitive,
        match_count: 0,
        last_error: None,
    }
}

#[test]
fn count_matches_literal() {
    let s = make_search("hello", "", false, true);
    assert_eq!(s.count_matches("hello world hello"), 2);
}

#[test]
fn count_matches_case_insensitive() {
    let s = make_search("hello", "", false, false);
    assert_eq!(s.count_matches("Hello HELLO hello"), 3);
}

#[test]
fn count_matches_regex() {
    let s = make_search(r"\d+", "", true, false);
    assert_eq!(s.count_matches("abc 123 def 456"), 2);
}

#[test]
fn count_matches_empty_query() {
    let s = make_search("", "", false, false);
    assert_eq!(s.count_matches("anything"), 0);
}

#[test]
fn replace_all_literal() {
    let s = make_search("foo", "bar", false, true);
    assert_eq!(s.replace_all("foo baz foo").unwrap(), "bar baz bar");
}

#[test]
fn replace_all_case_insensitive() {
    let s = make_search("hello", "hi", false, false);
    let result = s.replace_all("Hello HELLO hello").unwrap();
    assert_eq!(result, "hi hi hi");
}

#[test]
fn replace_all_regex() {
    let s = make_search(r"\d+", "NUM", true, false);
    assert_eq!(s.replace_all("abc 123 def 456").unwrap(), "abc NUM def NUM");
}

#[test]
fn replace_all_invalid_regex_returns_error() {
    let s = make_search(r"[invalid", "x", true, false);
    assert!(s.replace_all("text").is_err());
}

// ─── Further cases ──────────────────────────────────────────────────────────

#[test]
fn literal_matches_do_not_overlap() {
    let s = make_search("aa", "", false, true);
    assert_eq!(s.count_matches("aaaa"), 2);
    assert_eq!(s.count_matches("aaa"), 1);
    let r = make_search("aa", "b", false, true);
    assert_eq!(r.replace_all("aaaaa").unwrap(), "bba");
}

#[test]
fn case_sensitive_literal_ignores_other_case() {
    let s = make_search("Hello", "", false, true);
    assert_eq!(s.count_matches("hello Hello HELLO"), 1);
}

#[test]
fn regex_case_flag() {
    let ci = make_search("abc", "", true, false);
    assert_eq!(ci.count_matches("ABC abc"), 2);
    let cs = make_search("abc", "", true, true);
    assert_eq!(cs.count_matches("ABC abc"), 1);
    let bad = make_search("(", "", true, true);
    assert_eq!(bad.count_matches("(((("), 0);
}

#[test]
fn regex_replacement_group_reference() {
    let s = make_search(r"(\w+)@(\w+)", "$2 at $1", true, true);
    assert_eq!(s.replace_all("me@home").unwrap(), "home at me");
}

#[test]
fn replace_with_empty_query_keeps_text() {
    let s = make_search("", "x", false, false);
    assert_eq!(s.replace_all("abc").unwrap(), "abc");
}

#[test]
fn replace_query_with_itself_keeps_text() {
    let s = make_search("ab", "ab", false, true);
    assert_eq!(s.replace_all("abcabab").unwrap(), "abcabab");
}

#[test]
fn case_insensitive_replace_keeps_unmatched_text() {
    let s = make_search("ÉTÉ", "summer", false, false);
    assert_eq!(s.replace_all("Un été, un Été.").unwrap(), "Un summer, un summer.");
}

#[test]
fn case_insensitive_replace_misaligned_is_refused() {
    // 'İ' (2 bytes) lowercases to "i̇" (3 bytes): the offsets no longer line up
    let mut s = make_search("x", "y", false, false);
    assert!(s.try_replace_all("İİx").is_none());
    assert_eq!(s.try_replace_all("aXb"), Some(Ok("ayb".to_string())));
    let mut content = String::from("İİx");
    assert!(!s.try_update(SearchMessage::ReplaceAll, &mut content));
    assert_eq!(content, "İİx");
    assert!(s.try_update(SearchMessage::Find, &mut content));
    assert_eq!(s.match_count, 1);
}

#[test]
fn update_handles_messages() {
    let mut s = SearchState::new();
    let mut content = String::from("one two one");
    s.update(SearchMessage::QueryChanged("one".to_string()), &mut content);
    s.update(SearchMessage::Find, &mut content);
    assert_eq!(s.match_count, 2);
    s.update(SearchMessage::ReplaceChanged("1".to_string()), &mut content);
    s.update(SearchMessage::ReplaceAll, &mut content);
    assert_eq!(content, "1 two 1");
    s.update(SearchMessage::ToggleRegex, &mut content);
    assert!(s.use_regex);
    s.update(SearchMessage::QueryChanged("(".to_string()), &mut content);
    s.update(SearchMessage::ReplaceAll, &mut content);
    assert!(s.last_error.is_some());
    assert_eq!(content, "1 two 1");
    s.update(SearchMessage::QueryChanged("two".to_string()), &mut content);
    assert!(s.last_error.is_none());
    s.update(SearchMessage::ToggleCaseSensitive, &mut content);
    assert!(s.case_sensitive);
    s.update(SearchMessage::Close, &mut content);
    assert_eq!(content, "1 two 1");
}

#[test]
fn search_summary() {
    let mut s = make_search("a", "", false, true);
    assert_eq!(s.summary(), SearchSummary::Nothing);
    s.last_error = Some("bad".to_string());
    assert_eq!(s.summary(), SearchSummary::Error("bad".to_string()));
    s.match_count = 3;
    assert_eq!(s.summary(), SearchSummary::Matches(3));
}

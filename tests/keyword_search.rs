use zaimanhua::keyword::{
    hidden_hit_matches, hidden_scan_start, is_auth_error, merge_keyword_results, parse_manga_id,
    RetryStep, TokenRetry,
};
use zaimanhua::models::{FilterItem, SearchItem};

fn hit(id: i64, title: &str) -> SearchItem {
    SearchItem { id, title: title.to_string(), cover: None, authors: None, status: None }
}

fn hidden(id: i64, name: &str, authors: Option<&str>) -> FilterItem {
    FilterItem {
        id,
        name: name.to_string(),
        cover: None,
        authors: authors.map(|a| a.to_string()),
        status: None,
        last_update_chapter_name: None,
        last_update_chapter_id: None,
        last_updatetime: None,
    }
}

#[test]
fn numeric_keyword_is_an_id() {
    assert_eq!(parse_manga_id("  70258 "), Some("70258".to_string()));
    assert_eq!(parse_manga_id("70a58"), None);
    assert_eq!(parse_manga_id(""), None);
}

#[test]
fn site_link_gives_the_id_after_the_last_slash() {
    assert_eq!(
        parse_manga_id("https://manhua.zaimanhua.com/details/70258"),
        Some("70258".to_string())
    );
    assert_eq!(
        parse_manga_id("https://manhua.zaimanhua.com/details/123?x=1"),
        Some("123".to_string())
    );
    assert_eq!(parse_manga_id("https://manhua.zaimanhua.com/details/"), None);
    assert_eq!(parse_manga_id("https://example.com/details/70258"), None);
}

#[test]
fn token_refresh_happens_once() {
    assert!(is_auth_error(Some(99)));
    assert!(!is_auth_error(Some(0)));
    assert!(!is_auth_error(None));
    let mut retry = TokenRetry::new();
    assert_eq!(retry.after_attempt(false), RetryStep::Commit);
    assert_eq!(retry.after_attempt(true), RetryStep::Refresh);
    assert!(retry.after_refresh(true));
    assert_eq!(retry.after_attempt(true), RetryStep::GiveUp);
    assert_eq!(retry.after_attempt(false), RetryStep::Commit);
    let mut failed = TokenRetry::new();
    assert!(!failed.after_refresh(false));
}

#[test]
fn hidden_hits_match_by_name_or_author_case_aside() {
    assert!(hidden_hit_matches("one piece", "", "piece"));
    assert!(hidden_hit_matches("x", "oda", "oda"));
    assert!(!hidden_hit_matches("x", "y", "z"));
    let hits = vec![hit(1, "One Piece")];
    let extra = vec![
        hidden(1, "One Piece", None),
        hidden(2, "ONE PIECE Film", None),
        hidden(3, "Other", Some("Piece Maker")),
        hidden(4, "Unrelated", Some("Nobody")),
    ];
    let page = merge_keyword_results(hits, extra, "Piece");
    let keys: Vec<String> = page.entries.iter().map(|m| m.key.clone()).collect();
    assert_eq!(keys, vec!["1", "2", "3"]);
    assert!(page.has_next_page);
    let empty = merge_keyword_results(Vec::new(), vec![hidden(9, "a", None)], "zzz");
    assert!(empty.entries.is_empty());
    assert!(!empty.has_next_page);
}

#[test]
fn hidden_scan_pages_follow_the_result_page() {
    assert_eq!(hidden_scan_start(1), 1);
    assert_eq!(hidden_scan_start(2), 6);
    assert_eq!(hidden_scan_start(3), 11);
}

use zaimanhua::keyword::{is_blank, read_keyword_attempt};
use zaimanhua::models::{ApiResponse, FilterData, SearchData};

fn search_answer(errno: Option<i64>, ids: &[i64]) -> ApiResponse<SearchData> {
    ApiResponse {
        errno,
        errmsg: None,
        data: Some(SearchData { list: ids.iter().map(|i| hit(*i, "t")).collect(), total: None }),
    }
}

fn hidden_answer(errno: Option<i64>, ids: &[i64]) -> Option<ApiResponse<FilterData>> {
    Some(ApiResponse {
        errno,
        errmsg: None,
        data: Some(FilterData { comic_list: ids.iter().map(|i| hidden(*i, "h", None)).collect(), total: None }),
    })
}

#[test]
fn blank_keywords() {
    assert!(is_blank(""));
    assert!(is_blank(" \t\n"));
    assert!(!is_blank(" a "));
}

#[test]
fn attempt_reads_search_and_hidden_answers() {
    let a = read_keyword_attempt(
        Some(search_answer(Some(0), &[1, 2])),
        vec![hidden_answer(None, &[5]), None, hidden_answer(Some(0), &[6, 7])],
        true,
    );
    assert!(!a.auth_error);
    assert_eq!(a.search.unwrap().list.len(), 2);
    assert_eq!(a.hidden.iter().map(|i| i.id).collect::<Vec<_>>(), vec![5, 6, 7]);
    let no_scan = read_keyword_attempt(Some(search_answer(None, &[1])), vec![hidden_answer(None, &[5])], false);
    assert!(no_scan.hidden.is_empty());
}

#[test]
fn refused_token_is_reported() {
    let a = read_keyword_attempt(Some(search_answer(Some(99), &[1])), vec![hidden_answer(None, &[5])], true);
    assert!(a.auth_error);
    assert!(a.search.is_none());
    assert!(a.hidden.is_empty());
    let b = read_keyword_attempt(
        Some(search_answer(Some(0), &[1])),
        vec![hidden_answer(None, &[5]), hidden_answer(Some(99), &[6]), hidden_answer(None, &[7])],
        true,
    );
    assert!(b.auth_error);
    assert_eq!(b.hidden.iter().map(|i| i.id).collect::<Vec<_>>(), vec![5]);
    let c = read_keyword_attempt(None, Vec::new(), true);
    assert!(!c.auth_error && c.search.is_none());
}

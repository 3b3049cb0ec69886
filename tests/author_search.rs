use zaimanhua::models::{AuthorTag, FilterData, FilterItem, SearchData, SearchItem};
use zaimanhua::search::CandidateDetail;
use zaimanhua::session::{Action, AuthorSearch, Event};

fn hit(id: i64, title: &str, authors: &str) -> SearchItem {
    SearchItem {
        id,
        title: title.to_string(),
        cover: None,
        authors: Some(authors.to_string()),
        status: None,
    }
}

fn entry(id: i64, name: &str, authors: &str) -> FilterItem {
    FilterItem {
        id,
        name: name.to_string(),
        cover: None,
        authors: Some(authors.to_string()),
        status: None,
        last_update_chapter_name: None,
        last_update_chapter_id: None,
        last_updatetime: None,
    }
}

fn tag(id: i64, name: &str) -> AuthorTag {
    AuthorTag { tag_id: Some(id), tag_name: Some(name.to_string()) }
}

fn keys(action: &Action) -> Vec<String> {
    match action {
        Action::Finish { result } => result.entries.iter().map(|m| m.key.clone()).collect(),
        other => panic!("expected the result, got {:?}", other),
    }
}

fn has_next(action: &Action) -> bool {
    match action {
        Action::Finish { result } => result.has_next_page,
        other => panic!("expected the result, got {:?}", other),
    }
}

#[test]
fn blank_author_gives_empty_page_without_requests() {
    for author in ["", "   ", "\t \n"] {
        let (_search, action) = AuthorSearch::new(author, 1, true);
        assert_eq!(keys(&action), Vec::<String>::new());
        assert!(!has_next(&action));
    }
}

#[test]
fn exact_author_uses_strict_tags_and_strict_candidate() {
    let (mut search, action) = AuthorSearch::new("张三", 1, false);
    match &action {
        Action::SearchKeyword { keyword } => assert_eq!(keyword, "张三"),
        other => panic!("unexpected {:?}", other),
    }
    let data = SearchData {
        list: vec![hit(10, "A", "张三"), hit(11, "B", "张三丰"), hit(12, "C", "王五")],
        total: Some(3),
    };
    let action = search.step(Event::KeywordResults { data: Some(data) });
    match &action {
        Action::FetchDetails { manga_ids } => assert_eq!(manga_ids, &vec![10, 11]),
        other => panic!("unexpected {:?}", other),
    }
    let details = vec![
        Some(CandidateDetail { authors: Some(vec![tag(500, "张三")]) }),
        Some(CandidateDetail { authors: Some(vec![tag(501, "张三丰")]) }),
    ];
    let action = search.step(Event::Details { details });
    match &action {
        Action::FetchTagPages { tag_ids, page } => {
            assert_eq!(tag_ids, &vec![500]);
            assert_eq!(*page, 1);
        }
        other => panic!("unexpected {:?}", other),
    }
    let pages = vec![Some(FilterData {
        comic_list: vec![entry(1, "x", "张三"), entry(2, "y", "张三"), entry(10, "A", "张三")],
        total: Some(3),
    })];
    let action = search.step(Event::TagPages { pages });
    // Tag results first, then the strict candidate (10 is already there); the
    // partial candidate 11 is left out in strict mode.
    assert_eq!(keys(&action), vec!["1", "2", "10"]);
    assert!(!has_next(&action));
}

#[test]
fn exact_author_with_hidden_scan_puts_hidden_finds_first() {
    let (mut search, _) = AuthorSearch::new("张三", 2, true);
    let data = SearchData { list: vec![hit(10, "A", "张三")], total: None };
    search.step(Event::KeywordResults { data: Some(data) });
    let details = vec![Some(CandidateDetail { authors: Some(vec![tag(500, "张三")]) })];
    search.step(Event::Details { details });
    let pages = vec![Some(FilterData { comic_list: vec![entry(1, "x", "张三")], total: None })];
    let action = search.step(Event::TagPages { pages });
    match &action {
        Action::ScanHidden { start_page, page_count } => {
            assert_eq!(*start_page, 6);
            assert_eq!(*page_count, 3);
        }
        other => panic!("unexpected {:?}", other),
    }
    // No exact author token in this batch: the scan goes on.
    let action = search.step(Event::HiddenBatch { items: vec![entry(30, "h", "张三丰")] });
    match &action {
        Action::ScanHidden { start_page, .. } => assert_eq!(*start_page, 9),
        other => panic!("unexpected {:?}", other),
    }
    let action = search.step(Event::HiddenBatch {
        items: vec![entry(31, "h1", "李四, 张三"), entry(1, "dup", "张三")],
    });
    assert_eq!(keys(&action), vec!["31", "1", "10"]);
    assert!(!has_next(&action));
}

#[test]
fn decorated_author_falls_back_to_core_name_once() {
    let (mut search, _) = AuthorSearch::new("◎李四", 1, false);
    let data = SearchData { list: vec![hit(40, "Z", "王五")], total: None };
    let action = search.step(Event::KeywordResults { data: Some(data) });
    match &action {
        Action::SearchKeyword { keyword } => assert_eq!(keyword, "李四"),
        other => panic!("unexpected {:?}", other),
    }
    let data = SearchData { list: vec![hit(41, "Y", "李四")], total: None };
    let action = search.step(Event::KeywordResults { data: Some(data) });
    match &action {
        Action::FetchDetails { manga_ids } => assert_eq!(manga_ids, &vec![41]),
        other => panic!("unexpected {:?}", other),
    }
    let details = vec![Some(CandidateDetail { authors: Some(vec![tag(77, "李四")]) })];
    let action = search.step(Event::Details { details });
    match &action {
        Action::FetchTagPages { tag_ids, .. } => assert_eq!(tag_ids, &vec![77]),
        other => panic!("unexpected {:?}", other),
    }
    let action = search.step(Event::TagPages { pages: vec![None] });
    // Fallback mode keeps every matched candidate.
    assert_eq!(keys(&action), vec!["41"]);
}

#[test]
fn decorated_author_with_nothing_found_tries_core_name_only_once() {
    let (mut search, _) = AuthorSearch::new("◎李四", 1, false);
    let action = search.step(Event::KeywordResults { data: None });
    match &action {
        Action::SearchKeyword { keyword } => assert_eq!(keyword, "李四"),
        other => panic!("unexpected {:?}", other),
    }
    let action = search.step(Event::KeywordResults { data: None });
    assert_eq!(keys(&action), Vec::<String>::new());
    assert!(!has_next(&action));
}

#[test]
fn long_name_tries_core_then_short_core() {
    let (mut search, _) = AuthorSearch::new("@甲乙丙丁", 1, false);
    let action = search.step(Event::KeywordResults { data: None });
    match &action {
        Action::SearchKeyword { keyword } => assert_eq!(keyword, "甲乙丙丁"),
        other => panic!("unexpected {:?}", other),
    }
    let action = search.step(Event::KeywordResults { data: None });
    match &action {
        Action::SearchKeyword { keyword } => assert_eq!(keyword, "甲乙"),
        other => panic!("unexpected {:?}", other),
    }
    let action = search.step(Event::KeywordResults { data: None });
    assert!(matches!(action, Action::Finish { .. }));
}

#[test]
fn failed_lookup_counts_as_nothing_found() {
    let (mut search, _) = AuthorSearch::new("◎李四", 1, false);
    let data = SearchData { list: vec![hit(50, "P", "李四")], total: None };
    let action = search.step(Event::KeywordResults { data: Some(data) });
    assert!(matches!(action, Action::FetchDetails { .. }));
    let action = search.step(Event::Details { details: vec![None] });
    match &action {
        Action::SearchKeyword { keyword } => assert_eq!(keyword, "李四"),
        other => panic!("unexpected {:?}", other),
    }
}

#[test]
fn direct_partial_match_skips_fallback() {
    let (mut search, _) = AuthorSearch::new("◎李四", 1, false);
    let data = SearchData { list: vec![hit(50, "P", "李四")], total: None };
    search.step(Event::KeywordResults { data: Some(data) });
    let details = vec![Some(CandidateDetail { authors: Some(vec![tag(60, "李四")]) })];
    let action = search.step(Event::Details { details });
    match &action {
        Action::FetchTagPages { tag_ids, .. } => assert_eq!(tag_ids, &vec![60]),
        other => panic!("unexpected {:?}", other),
    }
}

fn tag_page_result(items: usize, total: Option<i64>) -> Action {
    let (mut search, _) = AuthorSearch::new("张三", 1, false);
    let data = SearchData { list: vec![hit(100000, "A", "张三")], total: None };
    search.step(Event::KeywordResults { data: Some(data) });
    let details = vec![Some(CandidateDetail { authors: Some(vec![tag(9, "张三")]) })];
    search.step(Event::Details { details });
    let list: Vec<FilterItem> = (1..=items as i64).map(|i| entry(i, "t", "张三")).collect();
    search.step(Event::TagPages { pages: vec![Some(FilterData { comic_list: list, total })] })
}

#[test]
fn hundred_tag_items_with_total_hundred_has_next_page() {
    assert!(has_next(&tag_page_result(100, Some(100))));
}

#[test]
fn thirty_seven_tag_items_without_total_has_no_next_page() {
    assert!(!has_next(&tag_page_result(37, None)));
}

use zaimanhua::merger::MangaMerger;
use zaimanhua::models::{id_key, parse_positive_id, parse_status, MangaRecord, MangaStatus};
use zaimanhua::search::{combine_tag_pages, has_next_page};
use zaimanhua::models::{FilterData, FilterItem};

fn rec(key: &str, title: &str) -> MangaRecord {
    MangaRecord {
        key: key.to_string(),
        title: title.to_string(),
        cover: None,
        authors: None,
        status: MangaStatus::Unknown,
    }
}

fn titles(records: &[MangaRecord]) -> Vec<String> {
    records.iter().map(|r| r.title.clone()).collect()
}

#[test]
fn merger_keeps_first_record_per_id() {
    let mut m = MangaMerger::new();
    assert!(m.is_empty());
    assert!(m.add(rec("7", "first")));
    assert!(!m.add(rec("7", "second")));
    assert!(!m.add(rec("+7", "signed")));
    assert!(m.add(rec("8", "other")));
    assert_eq!(m.len(), 2);
    assert_eq!(titles(&m.finish()), vec!["first", "other"]);
}

#[test]
fn merger_refuses_bad_keys() {
    let mut m = MangaMerger::new();
    assert!(!m.add(rec("0", "zero")));
    assert!(!m.add(rec("-3", "negative")));
    assert!(!m.add(rec("abc", "text")));
    assert!(!m.add(rec("", "empty")));
    assert!(!m.add(rec("99999999999999999999", "too big")));
    assert!(!m.try_add(0, rec("1", "zero id")));
    assert!(m.try_add(1, rec("whatever", "given id")));
    assert_eq!(titles(&m.finish()), vec!["given id"]);
}

#[test]
fn extending_twice_adds_each_id_once() {
    let mut m = MangaMerger::new();
    let batch = || vec![rec("1", "a"), rec("2", "b"), rec("1", "c")];
    m.extend(batch());
    m.extend(batch());
    assert_eq!(titles(&m.finish()), vec!["a", "b"]);
}

#[test]
fn keys_parse_as_std_does() {
    assert_eq!(parse_positive_id("123"), Some(123));
    assert_eq!(parse_positive_id("+5"), Some(5));
    assert_eq!(parse_positive_id("9223372036854775807"), Some(i64::MAX));
    assert_eq!(parse_positive_id("9223372036854775808"), None);
    assert_eq!(parse_positive_id("12a"), None);
    assert_eq!(parse_positive_id("+"), None);
    assert_eq!(parse_positive_id(" 1"), None);
    assert_eq!(id_key(70258), "70258");
    assert_eq!(id_key(-4), "-4");
    assert_eq!(id_key(0), "0");
    assert_eq!(id_key(i64::MIN), "-9223372036854775808");
    assert_eq!(id_key(i64::MAX), "9223372036854775807");
}

#[test]
fn status_labels() {
    assert_eq!(parse_status("连载中"), MangaStatus::Ongoing);
    assert_eq!(parse_status("已完结"), MangaStatus::Completed);
    assert_eq!(parse_status("停更"), MangaStatus::Hiatus);
    assert_eq!(parse_status("暂停更新"), MangaStatus::Hiatus);
    assert_eq!(parse_status("其他"), MangaStatus::Unknown);
}

fn item(id: i64) -> FilterItem {
    FilterItem {
        id,
        name: format!("n{}", id),
        cover: None,
        authors: None,
        status: None,
        last_update_chapter_name: None,
        last_update_chapter_id: None,
        last_updatetime: None,
    }
}

#[test]
fn tag_pages_combine_in_order_with_largest_total() {
    let pages = vec![
        Some(FilterData { comic_list: vec![item(1), item(2)], total: Some(40) }),
        None,
        Some(FilterData { comic_list: vec![item(3)], total: Some(120) }),
        Some(FilterData { comic_list: vec![], total: None }),
    ];
    let (items, total) = combine_tag_pages(pages);
    assert_eq!(items.iter().map(|i| i.id).collect::<Vec<_>>(), vec![1, 2, 3]);
    assert_eq!(total, 120);
}

#[test]
fn next_page_by_total_or_count() {
    assert!(has_next_page(100, 0));
    assert!(!has_next_page(99, 500));
    assert!(has_next_page(0, 100));
    assert!(!has_next_page(0, 37));
}

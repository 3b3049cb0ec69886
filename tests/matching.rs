use zaimanhua::fuzzy::{core_name, fuzzy_terms, short_core};
use zaimanhua::matcher::{classify, MatchResult};
use zaimanhua::models::{AuthorTag, SearchItem};
use zaimanhua::should_hide_item;
use zaimanhua::tags::extract_author_tags_from_detail;

#[test]
fn classify_exact_name_is_strict() {
    assert_eq!(classify("张三", "张三"), MatchResult::Strict);
    assert_eq!(classify("李四/ 张三 ", "张三"), MatchResult::Strict);
}

#[test]
fn classify_substring_either_way_is_partial() {
    assert_eq!(classify("张三丰", "张三"), MatchResult::Partial);
    assert_eq!(classify("张三", "张三丰"), MatchResult::Partial);
    assert_eq!(classify("王五/三丰", "张三丰"), MatchResult::Partial);
}

#[test]
fn classify_unrelated_or_empty_names_do_not_match() {
    assert_eq!(classify("王五", "张三"), MatchResult::Unmatched);
    assert_eq!(classify("", "张三"), MatchResult::Unmatched);
    assert_eq!(classify(" / ", "张三"), MatchResult::Unmatched);
}

#[test]
fn classify_strict_only_in_candidate_direction() {
    assert_eq!(classify("A/B", "A"), MatchResult::Strict);
    assert_eq!(classify("A", "A/B"), MatchResult::Partial);
    assert_eq!(classify("ab", "b"), MatchResult::Partial);
    assert_eq!(classify("b", "ab"), MatchResult::Partial);
}

#[test]
fn search_item_matches_author() {
    let item = SearchItem {
        id: 1,
        title: "t".to_string(),
        cover: None,
        authors: Some("甲/乙".to_string()),
        status: None,
    };
    assert!(item.matches_author("乙"));
    assert!(!item.matches_author("丙"));
    let nobody = SearchItem { authors: None, ..item };
    assert!(!nobody.matches_author("乙"));
}

#[test]
fn tags_are_split_and_deduplicated() {
    let tags = Some(vec![
        AuthorTag { tag_id: Some(5), tag_name: Some("张三".to_string()) },
        AuthorTag { tag_id: Some(5), tag_name: Some("张三".to_string()) },
        AuthorTag { tag_id: Some(6), tag_name: Some("张三丰".to_string()) },
        AuthorTag { tag_id: Some(0), tag_name: Some("张三".to_string()) },
        AuthorTag { tag_id: None, tag_name: Some("张三".to_string()) },
        AuthorTag { tag_id: Some(7), tag_name: None },
        AuthorTag { tag_id: Some(8), tag_name: Some("王五".to_string()) },
    ]);
    let r = extract_author_tags_from_detail(&tags, "张三");
    assert_eq!(r.strict_ids, vec![5]);
    assert_eq!(r.partial_ids, vec![6]);
    assert_eq!(r.match_type, MatchResult::Strict);
    let none = extract_author_tags_from_detail(&None, "张三");
    assert!(none.strict_ids.is_empty() && none.partial_ids.is_empty());
    assert_eq!(none.match_type, MatchResult::Unmatched);
}

#[test]
fn core_name_strips_decorations() {
    assert_eq!(core_name("◎李四"), "李四");
    assert_eq!(core_name("◎◎@◯王"), "王");
    assert_eq!(core_name("李◎四"), "李◎四");
}

#[test]
fn short_core_takes_two_of_four_or_more() {
    assert_eq!(short_core("甲乙丙丁"), "甲乙");
    assert_eq!(short_core("甲乙丙"), "甲乙丙");
    assert_eq!(short_core("ab"), "ab");
}

#[test]
fn fuzzy_terms_skip_author_and_repeats() {
    assert_eq!(fuzzy_terms("◎李四"), vec!["李四".to_string()]);
    assert_eq!(fuzzy_terms("李四"), Vec::<String>::new());
    assert_eq!(fuzzy_terms("甲乙丙丁"), vec!["甲乙".to_string()]);
    assert_eq!(fuzzy_terms("@甲乙丙丁"), vec!["甲乙丙丁".to_string(), "甲乙".to_string()]);
}

#[test]
fn hidden_items_are_hidden_unless_shown() {
    assert!(should_hide_item(Some(1), false));
    assert!(!should_hide_item(Some(1), true));
    assert!(!should_hide_item(Some(0), false));
    assert!(!should_hide_item(None, false));
}

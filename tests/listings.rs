use zaimanhua::details::{
    banner_description, banner_titles, big_scroller_index, ChapterGroup, ChapterItem, MangaDetail,
    RecommendCategory, RecommendItem, StatusTag, ThemeTag,
};
use zaimanhua::listing::{
    chapter_path, deep_link_key, detail_status, manga_list_from_filter, manga_list_from_ranks,
    manga_list_from_subscribes, viewer_for, ContentRating, RankItem, SubscribeItem, Viewer,
};
use zaimanhua::models::{AuthorTag, FilterItem, MangaStatus};
use zaimanhua::news::news_links;
use zaimanhua::queries::{
    browse_query, listing_kind, rank_by_time, subscribe_access, ListingKind, SelectFilter,
    SubscribeAccess,
};

fn item(id: i64) -> FilterItem {
    FilterItem {
        id,
        name: format!("t{}", id),
        cover: None,
        authors: Some("a".to_string()),
        status: Some("连载中".to_string()),
        last_update_chapter_name: Some("第2话".to_string()),
        last_update_chapter_id: Some(88),
        last_updatetime: Some(1700000000),
    }
}

#[test]
fn deep_links_name_titles() {
    assert_eq!(deep_link_key("https://manhua.zaimanhua.com/comic/123"), Some("123".to_string()));
    assert_eq!(deep_link_key("zaimanhua://open?id=456&from=share"), Some("456".to_string()));
    assert_eq!(deep_link_key("https://x.com/manga/12ab"), None);
    assert_eq!(deep_link_key("https://x.com/other/123"), None);
}

#[test]
fn chapter_keys_split_in_two() {
    assert_eq!(chapter_path("12/34", "99"), ("12".to_string(), "34".to_string()));
    assert_eq!(chapter_path("34", "99"), ("99".to_string(), "34".to_string()));
    assert_eq!(chapter_path("1/2/3", "99"), ("99".to_string(), "1/2/3".to_string()));
}

#[test]
fn viewer_from_direction() {
    assert_eq!(viewer_for(Some(2), Some(1)), Viewer::Webtoon);
    assert_eq!(viewer_for(Some(2), None), Viewer::LeftToRight);
    assert_eq!(viewer_for(Some(1), Some(1)), Viewer::RightToLeft);
    assert_eq!(viewer_for(None, None), Viewer::RightToLeft);
}

#[test]
fn status_tags_give_status_and_rating() {
    let names = vec![Some("连载".to_string()), None, Some("成人向".to_string())];
    assert_eq!(detail_status(&names), (MangaStatus::Ongoing, ContentRating::Nsfw));
    let names = vec![Some("已完结".to_string()), Some("其他".to_string())];
    assert_eq!(detail_status(&names), (MangaStatus::Completed, ContentRating::Safe));
    assert_eq!(detail_status(&Vec::new()), (MangaStatus::Unknown, ContentRating::Safe));
}

#[test]
fn lists_drop_entries_without_positive_ids() {
    let page = manga_list_from_filter(vec![item(3), item(0), item(-1), item(4)]);
    let keys: Vec<String> = page.entries.iter().map(|m| m.key.clone()).collect();
    assert_eq!(keys, vec!["3", "4"]);
    assert_eq!(page.entries[0].status, MangaStatus::Ongoing);
    assert!(page.has_next_page);
    assert!(!manga_list_from_filter(Vec::new()).has_next_page);

    let ranks = vec![
        RankItem { comic_id: 0, title: "x".into(), cover: None, authors: None, status: None, num: None },
        RankItem { comic_id: 7, title: "y".into(), cover: None, authors: None, status: None, num: Some(3) },
    ];
    let page = manga_list_from_ranks(ranks);
    assert_eq!(page.entries.len(), 1);
    assert_eq!(page.entries[0].title, "y");

    let subs: Vec<SubscribeItem> = (0..51)
        .map(|i| SubscribeItem { id: i, name: None, cover: None, authors: None })
        .collect();
    let page = manga_list_from_subscribes(subs);
    assert_eq!(page.entries.len(), 50);
    assert!(page.has_next_page);
    assert_eq!(page.entries[0].title, "");
}

#[test]
fn filters_choose_browse_parameters() {
    let filters = vec![
        SelectFilter { id: "排序".into(), value: "2".into() },
        SelectFilter { id: "题材".into(), value: "5".into() },
        SelectFilter { id: "题材".into(), value: "6".into() },
    ];
    let q = browse_query(&filters);
    assert_eq!(q.sort_type, "2");
    assert_eq!(q.theme, "6");
    assert_eq!(q.zone, "0");
    assert_eq!(q.rank_mode, "0");
    assert_eq!(browse_query(&Vec::new()).sort_type, "1");
    assert_eq!(rank_by_time("3"), Some(2));
    assert_eq!(rank_by_time("0"), None);
}

#[test]
fn listing_ids() {
    assert_eq!(listing_kind("ongoing"), Some(ListingKind::Status(2309)));
    assert_eq!(listing_kind("josei"), Some(ListingKind::Category(13626)));
    assert_eq!(listing_kind("rank-monthly"), Some(ListingKind::RankMonthly));
    assert_eq!(listing_kind("nope"), None);
    assert_eq!(subscribe_access(false, true), SubscribeAccess::NeedLogin);
    assert_eq!(subscribe_access(true, false), SubscribeAccess::NeedEnhancedMode);
    assert_eq!(subscribe_access(true, true), SubscribeAccess::Allowed);
}

fn detail() -> MangaDetail {
    MangaDetail {
        id: 5,
        title: Some("T".into()),
        cover: None,
        description: Some("D".into()),
        authors: Some(vec![
            AuthorTag { tag_id: Some(1), tag_name: Some("A".into()) },
            AuthorTag { tag_id: Some(2), tag_name: None },
        ]),
        theme: Some(vec![ThemeTag { tag_name: Some("热血".into()) }]),
        status: Some(vec![StatusTag { tag_name: Some("连载".into()) }]),
        chapters: Some(vec![
            ChapterGroup {
                title: Some("连载".into()),
                data: vec![
                    ChapterItem { chapter_id: 30, chapter_title: Some("3".into()), updatetime: None },
                    ChapterItem { chapter_id: 20, chapter_title: Some("2".into()), updatetime: Some(9) },
                ],
            },
            ChapterGroup {
                title: None,
                data: vec![ChapterItem { chapter_id: 10, chapter_title: None, updatetime: None }],
            },
        ]),
        direction: Some(2),
        islong: Some(1),
        comic_py: Some("abc".into()),
    }
}

#[test]
fn detail_becomes_a_title() {
    let m = detail().into_manga("5".to_string());
    assert_eq!(m.title, "T");
    assert_eq!(m.authors, Some(vec!["A".to_string()]));
    assert_eq!(m.tags, Some(vec!["热血".to_string()]));
    assert_eq!(m.status, MangaStatus::Ongoing);
    assert_eq!(m.viewer, Viewer::Webtoon);
    assert_eq!(m.url, "https://manhua.zaimanhua.com/details/5");
}

#[test]
fn chapters_count_down_from_the_newest() {
    let cs = detail().into_chapters("5");
    let keys: Vec<&str> = cs.iter().map(|c| c.key.as_str()).collect();
    assert_eq!(keys, vec!["5/30", "5/20", "5/10"]);
    let numbers: Vec<usize> = cs.iter().map(|c| c.number).collect();
    assert_eq!(numbers, vec![3, 2, 1]);
    assert_eq!(cs[0].scanlator, "连载");
    assert_eq!(cs[2].scanlator, "");
    assert_eq!(cs[1].url, "https://manhua.zaimanhua.com/view/abc/5/20");
    assert_eq!(cs[1].date_uploaded, Some(9));
}

#[test]
fn latest_entry_keys_its_chapter() {
    let e = item(3).into_manga_with_chapter();
    assert_eq!(e.manga.key, "3");
    assert_eq!(e.chapter_key, "3/88");
    assert_eq!(e.chapter_title, Some("第2话".to_string()));
    let mut bare = item(4);
    bare.last_update_chapter_id = None;
    assert_eq!(bare.into_manga_with_chapter().chapter_key, "4/0");
}

#[test]
fn banners_keep_title_entries() {
    let cats = vec![
        RecommendCategory { category_id: 1, title: "a".into(), data: Vec::new() },
        RecommendCategory {
            category_id: 109,
            title: "b".into(),
            data: vec![
                RecommendItem { obj_id: 11, title: "x".into(), sub_title: None, item_type: 1, cover: None },
                RecommendItem { obj_id: 12, title: "y".into(), sub_title: None, item_type: 2, cover: None },
                RecommendItem { obj_id: 0, title: "z".into(), sub_title: None, item_type: 1, cover: None },
            ],
        },
    ];
    assert_eq!(big_scroller_index(&cats), Some(1));
    let banners = banner_titles(cats.into_iter().nth(1).unwrap());
    assert_eq!(banners, vec![(11, "x".to_string())]);
    assert_eq!(banner_description("note".into()), Some("note".to_string()));
    assert_eq!(banner_description(String::new()), None);
}

#[test]
fn news_page_gives_at_most_five_distinct_articles() {
    let mut html = String::from("<html>");
    for id in [101, 102, 101, 103, 104, 105, 106, 107] {
        html.push_str(&format!(
            "<img src=\"https://images.zaimanhua.com/news/article/{}/pic.jpg\" alt='x'>",
            id
        ));
    }
    html.push_str("<img src='https://images.zaimanhua.com/news/article/abc.jpg'>");
    let links = news_links(&html);
    assert_eq!(links.len(), 5);
    assert_eq!(links[0].image_url, "https://images.zaimanhua.com/news/article/101/pic.jpg");
    assert_eq!(links[0].news_url, "https://news.zaimanhua.com/article/101.html");
    assert_eq!(links[2].news_url, "https://news.zaimanhua.com/article/103.html");
    assert!(news_links("no pictures here").is_empty());
}

use zaimanhua::details::ChapterPageData;
use zaimanhua::queries::{search_route, SearchRoute, TextFilter};

#[test]
fn chapter_pages_prefer_high_definition() {
    let both = ChapterPageData { page_url: Some(vec!["a".into()]), page_url_hd: Some(vec!["b".into()]) };
    assert_eq!(both.page_list(), Some(vec!["b".to_string()]));
    let plain = ChapterPageData { page_url: Some(vec!["a".into()]), page_url_hd: None };
    assert_eq!(plain.page_list(), Some(vec!["a".to_string()]));
    assert_eq!(ChapterPageData { page_url: None, page_url_hd: None }.page_list(), None);
}

#[test]
fn searches_are_routed() {
    let author = vec![TextFilter { id: "author".into(), value: "张三".into() }];
    assert!(matches!(search_route(author, Some("q".into())), SearchRoute::Author { author } if author == "张三"));
    let other = vec![TextFilter { id: "title".into(), value: "x".into() }];
    assert!(matches!(search_route(other, None), SearchRoute::Keyword { keyword } if keyword == "x"));
    assert!(matches!(search_route(Vec::new(), Some("q".into())), SearchRoute::Keyword { keyword } if keyword == "q"));
    assert!(matches!(search_route(Vec::new(), Some(String::new())), SearchRoute::Browse));
    assert!(matches!(search_route(Vec::new(), None), SearchRoute::Browse));
}

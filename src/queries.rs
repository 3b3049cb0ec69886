//! Which request a query, a listing or a set of filters asks for.

use vstd::prelude::*;

use crate::text::{chars_of, same_chars};

verus! {

/// A select filter as the host hands it over: which filter, and the value chosen.
#[derive(Clone, Debug)]
pub struct SelectFilter {
    pub id: String,
    pub value: String,
}

/// The parameters of a browse request.
#[derive(Clone, Debug)]
pub struct BrowseQuery {
    pub sort_type: String,
    pub zone: String,
    pub status: String,
    pub cate: String,
    pub theme: String,
    pub rank_mode: String,
}

/// The value of the last filter with this id, else the default.
pub open spec fn selected(filters: Seq<SelectFilter>, id: Seq<char>, default: Seq<char>) -> Seq<char>
    decreases filters.len(),
{
    if filters.len() == 0 {
        default
    } else if filters.last().id@ == id {
        filters.last().value@
    } else {
        selected(filters.drop_last(), id, default)
    }
}

fn select_value(filters: &Vec<SelectFilter>, id: &str, default: &str) -> (r: String)
    ensures
        r@ == selected(filters@, id@, default@),
{
    let key = chars_of(id);
    let mut i: usize = filters.len();
    assert(filters@.subrange(0, i as int) =~= filters@);
    while i > 0
        invariant
            i <= filters@.len(),
            key@ == id@,
            selected(filters@, id@, default@) == selected(filters@.subrange(0, i as int), id@, default@),
        decreases i,
    {
        assert(filters@.subrange(0, i as int).drop_last() =~= filters@.subrange(0, i - 1));
        let f = &filters[i - 1];
        let fid = chars_of(f.id.as_str());
        if same_chars(&fid, &key) {
            return f.value.clone();
        }
        i = i - 1;
    }
    String::from_str(default)
}

/// The browse parameters that the filters choose: sort order "排序" (default
/// "1"), region "地区", status "状态", audience "受众", theme "题材" and
/// ranking "榜单" (each default "0"); the last filter of an id wins.
pub fn browse_query(filters: &Vec<SelectFilter>) -> (r: BrowseQuery)
    ensures
        r.sort_type@ == selected(filters@, "排序"@, "1"@),
        r.zone@ == selected(filters@, "地区"@, "0"@),
        r.status@ == selected(filters@, "状态"@, "0"@),
        r.cate@ == selected(filters@, "受众"@, "0"@),
        r.theme@ == selected(filters@, "题材"@, "0"@),
        r.rank_mode@ == selected(filters@, "榜单"@, "0"@),
{
    BrowseQuery {
        sort_type: select_value(filters, "排序", "1"),
        zone: select_value(filters, "地区", "0"),
        status: select_value(filters, "状态", "0"),
        cate: select_value(filters, "受众", "0"),
        theme: select_value(filters, "题材", "0"),
        rank_mode: select_value(filters, "榜单", "0"),
    }
}

/// The ranking period that a ranking mode selects: "1" daily (0), "2"
/// weekly (1), "3" monthly (2), "4" all time (3); anything else browses by
/// filter instead.
pub fn rank_by_time(rank_mode: &str) -> (r: Option<u8>)
    ensures
        r == (if rank_mode@ == "1"@ {
            Some(0u8)
        } else if rank_mode@ == "2"@ {
            Some(1u8)
        } else if rank_mode@ == "3"@ {
            Some(2u8)
        } else if rank_mode@ == "4"@ {
            Some(3u8)
        } else {
            None
        }),
{
    let m = chars_of(rank_mode);
    if same_chars(&m, &chars_of("1")) {
        Some(0)
    } else if same_chars(&m, &chars_of("2")) {
        Some(1)
    } else if same_chars(&m, &chars_of("3")) {
        Some(2)
    } else if same_chars(&m, &chars_of("4")) {
        Some(3)
    } else {
        None
    }
}

/// What a listing of the source shows.
#[derive(Clone, Copy, Debug, PartialEq, Eq, Structural)]
pub enum ListingKind {
    /// The monthly ranking.
    RankMonthly,
    /// Latest updates.
    Latest,
    /// Titles with a status tag.
    Status(i64),
    /// Titles of an audience category.
    Category(i64),
    /// The user's subscriptions.
    Subscribe,
}

/// The listing that an id names, if any.
pub fn listing_kind(id: &str) -> (r: Option<ListingKind>)
    ensures
        r == (if id@ == "rank-monthly"@ {
            Some(ListingKind::RankMonthly)
        } else if id@ == "latest"@ {
            Some(ListingKind::Latest)
        } else if id@ == "ongoing"@ {
            Some(ListingKind::Status(2309))
        } else if id@ == "completed"@ {
            Some(ListingKind::Status(2310))
        } else if id@ == "short"@ {
            Some(ListingKind::Status(29205))
        } else if id@ == "shounen"@ {
            Some(ListingKind::Category(3262))
        } else if id@ == "shoujo"@ {
            Some(ListingKind::Category(3263))
        } else if id@ == "seinen"@ {
            Some(ListingKind::Category(3264))
        } else if id@ == "josei"@ {
            Some(ListingKind::Category(13626))
        } else if id@ == "subscribe"@ {
            Some(ListingKind::Subscribe)
        } else {
            None
        }),
{
    let k = chars_of(id);
    if same_chars(&k, &chars_of("rank-monthly")) {
        Some(ListingKind::RankMonthly)
    } else if same_chars(&k, &chars_of("latest")) {
        Some(ListingKind::Latest)
    } else if same_chars(&k, &chars_of("ongoing")) {
        Some(ListingKind::Status(2309))
    } else if same_chars(&k, &chars_of("completed")) {
        Some(ListingKind::Status(2310))
    } else if same_chars(&k, &chars_of("short")) {
        Some(ListingKind::Status(29205))
    } else if same_chars(&k, &chars_of("shounen")) {
        Some(ListingKind::Category(3262))
    } else if same_chars(&k, &chars_of("shoujo")) {
        Some(ListingKind::Category(3263))
    } else if same_chars(&k, &chars_of("seinen")) {
        Some(ListingKind::Category(3264))
    } else if same_chars(&k, &chars_of("josei")) {
        Some(ListingKind::Category(13626))
    } else if same_chars(&k, &chars_of("subscribe")) {
        Some(ListingKind::Subscribe)
    } else {
        None
    }
}

/// Whether the subscription list can be shown.
#[derive(Clone, Copy, Debug, PartialEq, Eq, Structural)]
pub enum SubscribeAccess {
    NeedLogin,
    NeedEnhancedMode,
    Allowed,
}

/// The subscription list needs a logged-in user, then enhanced mode.
pub fn subscribe_access(logged_in: bool, enhanced_mode: bool) -> (r: SubscribeAccess)
    ensures
        !logged_in ==> r == SubscribeAccess::NeedLogin,
        logged_in && !enhanced_mode ==> r == SubscribeAccess::NeedEnhancedMode,
        logged_in && enhanced_mode ==> r == SubscribeAccess::Allowed,
{
    if !logged_in {
        SubscribeAccess::NeedLogin
    } else if !enhanced_mode {
        SubscribeAccess::NeedEnhancedMode
    } else {
        SubscribeAccess::Allowed
    }
}


/// A text filter as the host hands it over.
#[derive(Clone, Debug)]
pub struct TextFilter {
    pub id: String,
    pub value: String,
}

/// Which search a query runs.
#[derive(Clone, Debug)]
pub enum SearchRoute {
    /// The works of an author.
    Author { author: String },
    /// A keyword search.
    Keyword { keyword: String },
    /// Browsing by the select filters.
    Browse,
}

/// The search that a query asks for: the first text filter decides (an
/// author search for the filter "author", else a keyword search on its
/// value); without one, a non-empty query is a keyword search; else browse.
pub fn search_route(text_filters: Vec<TextFilter>, query: Option<String>) -> (r: SearchRoute)
    ensures
        text_filters@.len() > 0 && text_filters@[0].id@ == "author"@ ==> r == (SearchRoute::Author {
            author: text_filters@[0].value,
        }),
        text_filters@.len() > 0 && text_filters@[0].id@ != "author"@ ==> r == (SearchRoute::Keyword {
            keyword: text_filters@[0].value,
        }),
        text_filters@.len() == 0 && query.is_some() && query.unwrap()@.len() > 0 ==> r == (
        SearchRoute::Keyword { keyword: query.unwrap() }),
        text_filters@.len() == 0 && (query.is_none() || query.unwrap()@.len() == 0) ==> r
            == SearchRoute::Browse,
{
    let mut text_filters = text_filters;
    if text_filters.len() > 0 {
        let f = text_filters.remove(0);
        let id = chars_of(f.id.as_str());
        if same_chars(&id, &chars_of("author")) {
            return SearchRoute::Author { author: f.value };
        }
        return SearchRoute::Keyword { keyword: f.value };
    }
    match query {
        Some(q) => if q.unicode_len() > 0 {
            SearchRoute::Keyword { keyword: q }
        } else {
            SearchRoute::Browse
        },
        None => SearchRoute::Browse,
    }
}

} // verus!

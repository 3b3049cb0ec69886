//! A title's detail and chapters as the host shows them, the latest-update
//! entries, and the home page's recommendation banners.

use vstd::prelude::*;

use crate::listing::{detail_status, detail_status_of, viewer_for, ContentRating, Viewer};
use crate::models::{decimal_of, id_key, AuthorTag, FilterItem, MangaRecord, MangaStatus};
use crate::search::filter_record;

verus! {

/// The recommendation category whose entries fill the big scroller.
pub const BIG_SCROLLER_CATEGORY: i64 = 109;

/// A theme tag of a title's detail.
#[derive(Clone, Debug)]
pub struct ThemeTag {
    pub tag_name: Option<String>,
}

/// A status tag of a title's detail.
#[derive(Clone, Debug)]
pub struct StatusTag {
    pub tag_name: Option<String>,
}

/// One chapter of a chapter group.
#[derive(Clone, Debug)]
pub struct ChapterItem {
    pub chapter_id: i64,
    pub chapter_title: Option<String>,
    pub updatetime: Option<i64>,
}

/// A group of chapters (a volume, or one scanlation team's run).
#[derive(Clone, Debug)]
pub struct ChapterGroup {
    pub data: Vec<ChapterItem>,
    pub title: Option<String>,
}

/// The detail of a title.
#[derive(Clone, Debug)]
pub struct MangaDetail {
    pub id: i64,
    pub title: Option<String>,
    pub cover: Option<String>,
    pub description: Option<String>,
    pub authors: Option<Vec<AuthorTag>>,
    pub theme: Option<Vec<ThemeTag>>,
    pub status: Option<Vec<StatusTag>>,
    pub chapters: Option<Vec<ChapterGroup>>,
    pub direction: Option<i32>,
    pub islong: Option<i32>,
    pub comic_py: Option<String>,
}

/// A title with everything its detail page shows.
#[derive(Clone, Debug)]
pub struct DetailRecord {
    pub key: String,
    pub title: String,
    pub cover: Option<String>,
    pub description: Option<String>,
    pub authors: Option<Vec<String>>,
    pub tags: Option<Vec<String>>,
    pub status: MangaStatus,
    pub content_rating: ContentRating,
    pub viewer: Viewer,
    pub url: String,
}

/// A chapter as the host lists it; `number` counts down from the newest.
#[derive(Clone, Debug)]
pub struct ChapterRecord {
    pub key: String,
    pub title: Option<String>,
    pub scanlator: String,
    pub date_uploaded: Option<i64>,
    pub url: String,
    pub number: usize,
}

/// A title of the latest updates with its newest chapter.
#[derive(Clone, Debug)]
pub struct LatestEntry {
    pub manga: MangaRecord,
    pub chapter_key: String,
    pub chapter_title: Option<String>,
    pub chapter_date: Option<i64>,
}

/// One entry of a recommendation category.
#[derive(Clone, Debug)]
pub struct RecommendItem {
    pub obj_id: i64,
    pub title: String,
    pub sub_title: Option<String>,
    pub item_type: i64,
    pub cover: Option<String>,
}

/// A recommendation category of the home page.
#[derive(Clone, Debug)]
pub struct RecommendCategory {
    pub category_id: i64,
    pub title: String,
    pub data: Vec<RecommendItem>,
}

/// The names that are present, in order.
pub open spec fn present(names: Seq<Option<String>>) -> Seq<String>
    decreases names.len(),
{
    if names.len() == 0 {
        Seq::<String>::empty()
    } else {
        let rest = present(names.drop_last());
        match names.last() {
            Some(n) => rest.push(n),
            None => rest,
        }
    }
}

pub open spec fn author_names(tags: Seq<AuthorTag>) -> Seq<Option<String>> {
    tags.map_values(|t: AuthorTag| t.tag_name)
}

pub open spec fn theme_names(tags: Seq<ThemeTag>) -> Seq<Option<String>> {
    tags.map_values(|t: ThemeTag| t.tag_name)
}

pub open spec fn status_names(tags: Seq<StatusTag>) -> Seq<Option<String>> {
    tags.map_values(|t: StatusTag| t.tag_name)
}

fn present_names(names: Vec<Option<String>>) -> (r: Vec<String>)
    ensures
        r@ == present(names@),
{
    let mut names = names;
    let ghost all = names@;
    let total = names.len();
    let mut r: Vec<String> = Vec::new();
    let mut k: usize = 0;
    while names.len() > 0
        invariant
            k + names@.len() == all.len(),
            all.len() == total,
            names@ == all.subrange(k as int, all.len() as int),
            r@ == present(all.subrange(0, k as int)),
        decreases names@.len(),
    {
        let n = names.remove(0);
        assert(n == all[k as int]);
        assert(names@ =~= all.subrange(k + 1, all.len() as int));
        assert(all.subrange(0, k + 1).drop_last() =~= all.subrange(0, k as int));
        match n {
            Some(s) => r.push(s),
            None => {},
        }
        k = k + 1;
    }
    assert(all.subrange(0, all.len() as int) =~= all);
    r
}

fn author_name_list(tags: Vec<AuthorTag>) -> (r: Vec<Option<String>>)
    ensures
        r@ == author_names(tags@),
{
    let mut tags = tags;
    let ghost all = tags@;
    let total = tags.len();
    let mut r: Vec<Option<String>> = Vec::new();
    let mut k: usize = 0;
    while tags.len() > 0
        invariant
            k + tags@.len() == all.len(),
            all.len() == total,
            tags@ == all.subrange(k as int, all.len() as int),
            r@ == author_names(all.subrange(0, k as int)),
        decreases tags@.len(),
    {
        let t = tags.remove(0);
        assert(t == all[k as int]);
        assert(tags@ =~= all.subrange(k + 1, all.len() as int));
        r.push(t.tag_name);
        assert(r@ =~= author_names(all.subrange(0, k + 1)));
        k = k + 1;
    }
    assert(all.subrange(0, all.len() as int) =~= all);
    r
}

fn theme_name_list(tags: Vec<ThemeTag>) -> (r: Vec<Option<String>>)
    ensures
        r@ == theme_names(tags@),
{
    let mut tags = tags;
    let ghost all = tags@;
    let total = tags.len();
    let mut r: Vec<Option<String>> = Vec::new();
    let mut k: usize = 0;
    while tags.len() > 0
        invariant
            k + tags@.len() == all.len(),
            all.len() == total,
            tags@ == all.subrange(k as int, all.len() as int),
            r@ == theme_names(all.subrange(0, k as int)),
        decreases tags@.len(),
    {
        let t = tags.remove(0);
        assert(t == all[k as int]);
        assert(tags@ =~= all.subrange(k + 1, all.len() as int));
        r.push(t.tag_name);
        assert(r@ =~= theme_names(all.subrange(0, k + 1)));
        k = k + 1;
    }
    assert(all.subrange(0, all.len() as int) =~= all);
    r
}

fn status_name_list(tags: Vec<StatusTag>) -> (r: Vec<Option<String>>)
    ensures
        r@ == status_names(tags@),
{
    let mut tags = tags;
    let ghost all = tags@;
    let total = tags.len();
    let mut r: Vec<Option<String>> = Vec::new();
    let mut k: usize = 0;
    while tags.len() > 0
        invariant
            k + tags@.len() == all.len(),
            all.len() == total,
            tags@ == all.subrange(k as int, all.len() as int),
            r@ == status_names(all.subrange(0, k as int)),
        decreases tags@.len(),
    {
        let t = tags.remove(0);
        assert(t == all[k as int]);
        assert(tags@ =~= all.subrange(k + 1, all.len() as int));
        r.push(t.tag_name);
        assert(r@ =~= status_names(all.subrange(0, k + 1)));
        k = k + 1;
    }
    assert(all.subrange(0, all.len() as int) =~= all);
    r
}

/// The address of a title's page on the site.
pub open spec fn details_url(key: Seq<char>) -> Seq<char> {
    "https://manhua.zaimanhua.com/details/"@ + key
}

/// The address of a chapter's reader page on the site.
pub open spec fn chapter_url(comic_py: Seq<char>, manga_id: Seq<char>, chapter_id: i64) -> Seq<char> {
    "https://manhua.zaimanhua.com/view/"@ + comic_py + "/"@ + manga_id + "/"@ + decimal_of(
        chapter_id as int,
    )
}

/// The text of an optional value, the empty text when absent.
pub open spec fn text_or_empty(s: Option<String>) -> Seq<char> {
    match s {
        Some(t) => t@,
        None => Seq::<char>::empty(),
    }
}

fn owned_or_empty(s: Option<String>) -> (r: String)
    ensures
        r@ == text_or_empty(s),
{
    match s {
        Some(t) => t,
        None => String::new(),
    }
}

impl MangaDetail {
    /// The detail page of the title under `key`: authors and tags are the
    /// names present, the status and rating come from the status tags, the
    /// layout from `direction` and `islong`.
    pub fn into_manga(self, key: String) -> (r: DetailRecord)
        ensures
            r.key == key,
            r.title@ == text_or_empty(self.title),
            r.cover == self.cover,
            r.description == self.description,
            self.authors.is_none() ==> r.authors.is_none(),
            self.authors.is_some() ==> r.authors.is_some() && r.authors.unwrap()@ == present(
                author_names(self.authors.unwrap()@),
            ),
            self.theme.is_none() ==> r.tags.is_none(),
            self.theme.is_some() ==> r.tags.is_some() && r.tags.unwrap()@ == present(
                theme_names(self.theme.unwrap()@),
            ),
            (r.status, r.content_rating) == detail_status_of(
                match self.status {
                    Some(v) => status_names(v@),
                    None => Seq::<Option<String>>::empty(),
                },
            ),
            r.viewer == viewer_for_spec(self.direction, self.islong),
            r.url@ == details_url(key@),
    {
        let authors = match self.authors {
            Some(list) => Some(present_names(author_name_list(list))),
            None => None,
        };
        let tags = match self.theme {
            Some(list) => Some(present_names(theme_name_list(list))),
            None => None,
        };
        let names = match self.status {
            Some(list) => status_name_list(list),
            None => Vec::new(),
        };
        let (status, content_rating) = detail_status(&names);
        let url = String::from_str("https://manhua.zaimanhua.com/details/").concat(key.as_str());
        DetailRecord {
            key,
            title: owned_or_empty(self.title),
            cover: self.cover,
            description: self.description,
            authors,
            tags,
            status,
            content_rating,
            viewer: viewer_for(self.direction, self.islong),
            url,
        }
    }

    /// The chapters of the title `manga_id`, group after group in the order
    /// given; the first gets the highest number and the last number 1.
    pub fn into_chapters(self, manga_id: &str) -> (r: Vec<ChapterRecord>)
        ensures
            r@.len() == flat_chapters(groups_of(self.chapters)).len(),
            forall|i: int|
                0 <= i < r@.len() ==> chapter_fits(
                    #[trigger] r@[i],
                    manga_id@,
                    text_or_empty(self.comic_py),
                    flat_chapters(groups_of(self.chapters))[i],
                    (r@.len() - i) as int,
                ),
    {
        let comic_py = owned_or_empty(self.comic_py);
        let mut out: Vec<ChapterRecord> = Vec::new();
        let ghost flat = flat_chapters(groups_of(self.chapters));
        let groups = match self.chapters {
            Some(g) => g,
            None => Vec::new(),
        };
        let mut groups = groups;
        let ghost all = groups@;
        let total = groups.len();
        let mut k: usize = 0;
        while groups.len() > 0
            invariant
                k + groups@.len() == all.len(),
                all.len() == total,
                groups@ == all.subrange(k as int, all.len() as int),
                flat == flat_chapters(all),
                out@.len() == flat_chapters(all.subrange(0, k as int)).len(),
                forall|i: int|
                    0 <= i < out@.len() ==> chapter_fits(
                        #[trigger] out@[i],
                        manga_id@,
                        comic_py@,
                        flat_chapters(all.subrange(0, k as int))[i],
                        0,
                    ),
            decreases groups@.len(),
        {
            let g = groups.remove(0);
            assert(g == all[k as int]);
            assert(groups@ =~= all.subrange(k + 1, all.len() as int));
            assert(all.subrange(0, k + 1).drop_last() =~= all.subrange(0, k as int));
            let ghost before = out@;
            let ghost prev = flat_chapters(all.subrange(0, k as int));
            let group_title = owned_or_empty(g.title);
            let ghost gt = group_title@;
            let mut items = g.data;
            let ghost gitems = items@;
            let n_items = items.len();
            let mut j: usize = 0;
            while items.len() > 0
                invariant
                    j + items@.len() == gitems.len(),
                    gitems.len() == n_items,
                    items@ == gitems.subrange(j as int, gitems.len() as int),
                    group_title@ == gt,
                    out@.len() == before.len() + j,
                    before.len() == prev.len(),
                    forall|i: int| 0 <= i < before.len() ==> out@[i] == before[i],
                    forall|i: int|
                        0 <= i < j ==> chapter_fits(
                            #[trigger] out@[before.len() + i],
                            manga_id@,
                            comic_py@,
                            (gt, gitems[i]),
                            0,
                        ),
                decreases items@.len(),
            {
                let it = items.remove(0);
                assert(it == gitems[j as int]);
                assert(items@ =~= gitems.subrange(j + 1, gitems.len() as int));
                let cid = id_key(it.chapter_id);
                let key = String::from_str(manga_id).concat("/").concat(cid.as_str());
                let url = String::from_str("https://manhua.zaimanhua.com/view/").concat(
                    comic_py.as_str(),
                ).concat("/").concat(manga_id).concat("/").concat(cid.as_str());
                out.push(
                    ChapterRecord {
                        key,
                        title: it.chapter_title,
                        scanlator: group_title.clone(),
                        date_uploaded: it.updatetime,
                        url,
                        number: 0,
                    },
                );
                j = j + 1;
            }
            proof {
                lemma_flat_push(all.subrange(0, k as int), all[k as int]);
                assert(all.subrange(0, k + 1) =~= all.subrange(0, k as int).push(all[k as int]));
                assert forall|i: int|
                    0 <= i < out@.len() implies chapter_fits(
                    #[trigger] out@[i],
                    manga_id@,
                    comic_py@,
                    flat_chapters(all.subrange(0, k + 1))[i],
                    0,
                ) by {
                    if i < before.len() {
                        assert(out@[i] == before[i]);
                    } else {
                        assert(out@[before.len() + (i - before.len())] == out@[i]);
                    }
                }
            }
            k = k + 1;
        }
        assert(all.subrange(0, all.len() as int) =~= all);
        let n = out.len();
        let mut i: usize = 0;
        while i < n
            invariant
                n == out@.len(),
                i <= n,
                forall|m: int|
                    0 <= m < n ==> chapter_fits(
                        #[trigger] out@[m],
                        manga_id@,
                        comic_py@,
                        flat[m],
                        if m < i {
                            (n - m) as int
                        } else {
                            0
                        },
                    ),
            decreases n - i,
        {
            let mut c = out.remove(i);
            c.number = n - i;
            out.insert(i, c);
            i = i + 1;
        }
        out
    }
}

/// The groups of a detail, none when absent.
pub open spec fn groups_of(g: Option<Vec<ChapterGroup>>) -> Seq<ChapterGroup> {
    match g {
        Some(v) => v@,
        None => Seq::<ChapterGroup>::empty(),
    }
}

/// Every chapter with its group's title, group after group.
pub open spec fn flat_chapters(groups: Seq<ChapterGroup>) -> Seq<(Seq<char>, ChapterItem)>
    decreases groups.len(),
{
    if groups.len() == 0 {
        Seq::empty()
    } else {
        let g = groups.last();
        flat_chapters(groups.drop_last()) + g.data@.map_values(
            |it: ChapterItem| (text_or_empty(g.title), it),
        )
    }
}

proof fn lemma_flat_push(groups: Seq<ChapterGroup>, g: ChapterGroup)
    ensures
        flat_chapters(groups.push(g)) == flat_chapters(groups) + g.data@.map_values(
            |it: ChapterItem| (text_or_empty(g.title), it),
        ),
{
    assert(groups.push(g).drop_last() =~= groups);
}

/// A chapter record of a chapter of the title `manga_id`.
pub open spec fn chapter_fits(
    c: ChapterRecord,
    manga_id: Seq<char>,
    comic_py: Seq<char>,
    entry: (Seq<char>, ChapterItem),
    number: int,
) -> bool {
    &&& c.key@ == manga_id + "/"@ + decimal_of(entry.1.chapter_id as int)
    &&& c.title == entry.1.chapter_title
    &&& c.scanlator@ == entry.0
    &&& c.date_uploaded == entry.1.updatetime
    &&& c.url@ == chapter_url(comic_py, manga_id, entry.1.chapter_id)
    &&& c.number == number
}

/// The reading layout that `direction` and `islong` give.
pub open spec fn viewer_for_spec(direction: Option<i32>, islong: Option<i32>) -> Viewer {
    if direction == Some(2i32) && islong == Some(1i32) {
        Viewer::Webtoon
    } else if direction == Some(2i32) {
        Viewer::LeftToRight
    } else {
        Viewer::RightToLeft
    }
}

impl FilterItem {
    /// This entry as a latest update: the title's record and its newest
    /// chapter, keyed `"title/chapter"` (chapter 0 when unknown).
    pub fn into_manga_with_chapter(self) -> (r: LatestEntry)
        ensures
            filter_record(r.manga, self),
            r.chapter_key@ == decimal_of(self.id as int) + "/"@ + decimal_of(
                match self.last_update_chapter_id {
                    Some(c) => c as int,
                    None => 0,
                },
            ),
            r.chapter_title == self.last_update_chapter_name,
            r.chapter_date == self.last_updatetime,
    {
        let chapter_id = match self.last_update_chapter_id {
            Some(c) => c,
            None => 0,
        };
        let chapter_key = id_key(self.id).concat("/").concat(id_key(chapter_id).as_str());
        let chapter_title = self.last_update_chapter_name;
        let chapter_date = self.last_updatetime;
        let rest = FilterItem {
            last_update_chapter_name: None,
            ..self
        };
        let manga = rest.into_record();
        LatestEntry { manga, chapter_key, chapter_title, chapter_date }
    }
}

/// The entries of a recommendation category that open a title (type 1, with
/// a positive ID): each ID with the banner's title.
pub open spec fn banner_entries(items: Seq<RecommendItem>) -> Seq<(i64, String)>
    decreases items.len(),
{
    if items.len() == 0 {
        Seq::empty()
    } else {
        let rest = banner_entries(items.drop_last());
        let it = items.last();
        if it.item_type == 1 && it.obj_id > 0 {
            rest.push((it.obj_id, it.title))
        } else {
            rest
        }
    }
}

/// The titles that a recommendation category opens, with the banner titles.
pub fn banner_titles(category: RecommendCategory) -> (r: Vec<(i64, String)>)
    ensures
        r@ == banner_entries(category.data@),
{
    let mut items = category.data;
    let ghost all = items@;
    let total = items.len();
    let mut r: Vec<(i64, String)> = Vec::new();
    let mut k: usize = 0;
    while items.len() > 0
        invariant
            k + items@.len() == all.len(),
            all.len() == total,
            items@ == all.subrange(k as int, all.len() as int),
            r@ == banner_entries(all.subrange(0, k as int)),
        decreases items@.len(),
    {
        let it = items.remove(0);
        assert(it == all[k as int]);
        assert(items@ =~= all.subrange(k + 1, all.len() as int));
        assert(all.subrange(0, k + 1).drop_last() =~= all.subrange(0, k as int));
        if it.item_type == 1 && it.obj_id > 0 {
            r.push((it.obj_id, it.title));
        }
        k = k + 1;
    }
    assert(all.subrange(0, all.len() as int) =~= all);
    r
}

/// The position of the last category that fills the big scroller, if any.
pub fn big_scroller_index(categories: &Vec<RecommendCategory>) -> (r: Option<usize>)
    ensures
        r.is_some() ==> r.unwrap() < categories@.len() && categories@[r.unwrap() as int].category_id
            == BIG_SCROLLER_CATEGORY && forall|j: int|
            r.unwrap() < j < categories@.len() ==> categories@[j].category_id != BIG_SCROLLER_CATEGORY,
        r.is_none() ==> forall|j: int|
            0 <= j < categories@.len() ==> categories@[j].category_id != BIG_SCROLLER_CATEGORY,
{
    let mut i: usize = categories.len();
    while i > 0
        invariant
            i <= categories@.len(),
            forall|j: int| i <= j < categories@.len() ==> categories@[j].category_id != BIG_SCROLLER_CATEGORY,
        decreases i,
    {
        if categories[i - 1].category_id == BIG_SCROLLER_CATEGORY {
            return Some(i - 1);
        }
        i = i - 1;
    }
    None
}

/// The note shown with a big-scroller title: the banner's title, when it has one.
pub fn banner_description(banner_title: String) -> (r: Option<String>)
    ensures
        banner_title@.len() > 0 ==> r == Some(banner_title),
        banner_title@.len() == 0 ==> r.is_none(),
{
    if banner_title.unicode_len() > 0 {
        Some(banner_title)
    } else {
        None
    }
}


/// The detail payload: the title's detail, when there is one.
#[derive(Clone, Debug)]
pub struct DetailData {
    pub data: Option<MangaDetail>,
}

/// The payload of a chapter's pages.
#[derive(Clone, Debug)]
pub struct ChapterData {
    pub data: ChapterPageData,
}

/// The picture addresses of a chapter, in normal and in high definition.
#[derive(Clone, Debug)]
pub struct ChapterPageData {
    pub page_url: Option<Vec<String>>,
    pub page_url_hd: Option<Vec<String>>,
}

impl ChapterPageData {
    /// The pictures to show: the high-definition ones when given, else the
    /// normal ones; none when neither is.
    pub fn page_list(self) -> (r: Option<Vec<String>>)
        ensures
            self.page_url_hd.is_some() ==> r == self.page_url_hd,
            self.page_url_hd.is_none() ==> r == self.page_url,
    {
        match self.page_url_hd {
            Some(hd) => Some(hd),
            None => self.page_url,
        }
    }
}

/// The login answer's payload.
#[derive(Clone, Debug)]
pub struct LoginData {
    pub user: Option<UserToken>,
}

/// The session token of a logged-in user.
#[derive(Clone, Debug)]
pub struct UserToken {
    pub token: Option<String>,
}

/// The user-info answer's payload.
#[derive(Clone, Debug)]
pub struct UserInfoData {
    pub user_info: Option<UserInfo>,
}

/// What the account page shows of the user.
#[derive(Clone, Debug)]
pub struct UserInfo {
    pub username: Option<String>,
    pub nickname: Option<String>,
    pub level: Option<i64>,
    pub is_sign: Option<bool>,
}

impl LoginData {
    /// The token that a login answer carries, if any.
    pub fn into_token(self) -> (r: Option<String>)
        ensures
            r == (match self.user {
                Some(u) => u.token,
                None => None,
            }),
    {
        match self.user {
            Some(u) => u.token,
            None => None,
        }
    }
}

impl UserInfo {
    /// The name shown: the user name, else the nickname, else "未知用户".
    pub fn display_name(&self) -> (r: String)
        ensures
            r@ == (match self.username {
                Some(u) => u@,
                None => match self.nickname {
                    Some(n) => n@,
                    None => "未知用户"@,
                },
            }),
    {
        match &self.username {
            Some(u) => u.clone(),
            None => match &self.nickname {
                Some(n) => n.clone(),
                None => String::from_str("未知用户"),
            },
        }
    }

    /// The footer of the account group: the name and the level (0 when unknown).
    pub fn footer(&self) -> (r: String)
        ensures
            r@ == "用户："@ + self.display_name_spec() + " | 等级：Lv."@ + decimal_of(
                match self.level {
                    Some(l) => l as int,
                    None => 0,
                },
            ),
    {
        let level = match self.level {
            Some(l) => l,
            None => 0,
        };
        let name = self.display_name();
        String::from_str("用户：").concat(name.as_str()).concat(" | 等级：Lv.").concat(
            id_key(level).as_str(),
        )
    }

    pub open spec fn display_name_spec(&self) -> Seq<char> {
        match self.username {
            Some(u) => u@,
            None => match self.nickname {
                Some(n) => n@,
                None => "未知用户"@,
            },
        }
    }

    /// The subtitle of the automatic check-in switch: whether today's
    /// check-in is done.
    pub fn checkin_subtitle(&self) -> (r: &'static str)
        ensures
            self.is_sign == Some(true) ==> r@ == "今日已签到"@,
            self.is_sign != Some(true) ==> r@ == "今日未签到"@,
    {
        match self.is_sign {
            Some(true) => "今日已签到",
            _ => "今日未签到",
        }
    }
}

} // verus!

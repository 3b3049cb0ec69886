//! Listings: deep links, chapter paths, status and rating tags, and the pages
//! of the filter, ranking and subscription endpoints.

use vstd::prelude::*;

use crate::keyword::last_index;
use crate::models::{
    all_digits, is_record_of, parse_status, status_of, FilterItem, MangaRecord,
    MangaStatus, PageResult,
};
use crate::search::filter_record;
use crate::text::{chars_of, contains_chars, contains_seq, occurs_at};

verus! {

/// The page size of the subscription list.
pub const SUBSCRIBE_PAGE_SIZE: usize = 50;

/// One entry of the ranking endpoint.
#[derive(Clone, Debug)]
pub struct RankItem {
    pub comic_id: i64,
    pub title: String,
    pub cover: Option<String>,
    pub authors: Option<String>,
    pub status: Option<String>,
    pub num: Option<i64>,
}

/// The payload of the subscription list.
#[derive(Clone, Debug)]
pub struct SubscribeData {
    pub sub_list: Vec<SubscribeItem>,
}

/// One entry of the user's subscription list.
#[derive(Clone, Debug)]
pub struct SubscribeItem {
    pub id: i64,
    pub name: Option<String>,
    pub cover: Option<String>,
    pub authors: Option<String>,
}

/// How pages of a title are laid out for reading.
#[derive(Clone, Copy, Debug, PartialEq, Eq, Structural)]
pub enum Viewer {
    RightToLeft,
    LeftToRight,
    Webtoon,
}

/// Whether a title is for adults.
#[derive(Clone, Copy, Debug, PartialEq, Eq, Structural)]
pub enum ContentRating {
    Safe,
    Nsfw,
}

/// The first position at or after `from` where `t` occurs in `s`.
pub open spec fn first_occ(s: Seq<char>, t: Seq<char>, from: int) -> Option<int>
    decreases s.len() + 1 - from,
{
    if from < 0 || from + t.len() > s.len() {
        None
    } else if occurs_at(s, t, from) {
        Some(from)
    } else {
        first_occ(s, t, from + 1)
    }
}

/// `s` up to its first `c` (all of it when there is none).
pub open spec fn up_to(s: Seq<char>, c: char) -> Seq<char> {
    match first_occ(s, seq![c], 0) {
        Some(q) => s.subrange(0, q),
        None => s,
    }
}

/// `s` after its last `c` (all of it when there is none).
pub open spec fn after_last(s: Seq<char>, c: char) -> Seq<char> {
    match last_index(s, c) {
        Some(p) => s.subrange(p + 1, s.len() as int),
        None => s,
    }
}

/// The title key that a link to the site names: the digits after `id=` (up
/// to the next `&`), or else after the last `/`, in a link that has
/// `/manga/`, `/comic/` or `id=`.
pub open spec fn deep_link_key_of(url: Seq<char>) -> Option<Seq<char>> {
    if contains_seq(url, "/manga/"@) || contains_seq(url, "/comic/"@) || contains_seq(url, "id="@) {
        let id = match first_occ(url, "id="@, 0) {
            Some(p) => up_to(url.subrange(p + 3, url.len() as int), '&'),
            None => after_last(url, '/'),
        };
        if id.len() > 0 && all_digits(id) {
            Some(id)
        } else {
            None
        }
    } else {
        None
    }
}

/// The first position where `t` occurs in `s`.
fn find_first(s: &Vec<char>, t: &Vec<char>) -> (r: Option<usize>)
    ensures
        r.is_some() == first_occ(s@, t@, 0).is_some(),
        r.is_some() ==> first_occ(s@, t@, 0) == Some(r.unwrap() as int) && r.unwrap() + t@.len()
            <= s@.len(),
{
    let n = s.len();
    let m = t.len();
    if m > n {
        return None;
    }
    let mut i: usize = 0;
    while i <= n - m
        invariant
            n == s@.len(),
            m == t@.len(),
            m <= n,
            i <= n - m + 1,
            first_occ(s@, t@, 0) == first_occ(s@, t@, i as int),
        decreases n - m + 1 - i,
    {
        if crate::text::occurs_at_exec(s, t, i) {
            return Some(i);
        }
        if i == n - m {
            assert(first_occ(s@, t@, i + 1) == None::<int>);
            return None;
        }
        i = i + 1;
    }
    None
}

/// The key of the title that a link to the site opens, if it names one.
pub fn deep_link_key(url: &str) -> (r: Option<String>)
    ensures
        r.is_some() == deep_link_key_of(url@).is_some(),
        r.is_some() ==> r.unwrap()@ == deep_link_key_of(url@).unwrap(),
{
    let cs = chars_of(url);
    let n = cs.len();
    let manga = chars_of("/manga/");
    let comic = chars_of("/comic/");
    let id_eq = chars_of("id=");
    if !(contains_chars(&cs, &manga) || contains_chars(&cs, &comic) || contains_chars(&cs, &id_eq)) {
        return None;
    }
    proof {
        reveal_strlit("id=");
    }
    let (a, b) = match find_first(&cs, &id_eq) {
        Some(p) => {
            let rest = crate::text::slice_chars(&cs, p + 3, n);
            let amp = vec!['&'];
            assert(amp@ =~= seq!['&']);
            match find_first(&rest, &amp) {
                Some(q) => (p + 3, p + 3 + q),
                None => (p + 3, n),
            }
        },
        None => match crate::keyword::find_last_char(&cs, '/') {
            Some(p) => (p + 1, n),
            None => (0, n),
        },
    };
    let ghost id = cs@.subrange(a as int, b as int);
    proof {
        match first_occ(url@, "id="@, 0) {
            Some(p) => {
                let rest = url@.subrange(p + 3, url@.len() as int);
                match first_occ(rest, seq!['&'], 0) {
                    Some(q) => assert(id =~= rest.subrange(0, q)),
                    None => assert(id =~= rest),
                }
            },
            None => match last_index(url@, '/') {
                Some(p) => assert(id =~= url@.subrange(p + 1, url@.len() as int)),
                None => assert(id =~= url@),
            },
        }
    }
    if a < b && crate::keyword::all_digits_in(&cs, a, b) {
        Some(String::from_str(url.substring_char(a, b)))
    } else {
        None
    }
}

/// Whether `s` has exactly one `c`, at position `p`.
pub open spec fn single_at(s: Seq<char>, c: char, p: int) -> bool {
    0 <= p < s.len() && s[p] == c && forall|j: int| 0 <= j < s.len() && j != p ==> s[j] != c
}

/// The title and chapter IDs of a chapter: the two halves of a key
/// `"title/chapter"` with exactly one `/`, else the title's key and the
/// chapter's key as they are.
pub fn chapter_path(chapter_key: &str, manga_key: &str) -> (r: (String, String))
    ensures
        (exists|p: int| single_at(chapter_key@, '/', p)) ==> (exists|p: int|
            single_at(chapter_key@, '/', p) && r.0@ == chapter_key@.subrange(0, p) && r.1@
                == chapter_key@.subrange(p + 1, chapter_key@.len() as int)),
        !(exists|p: int| single_at(chapter_key@, '/', p)) ==> r.0@ == manga_key@ && r.1@
            == chapter_key@,
{
    let cs = chars_of(chapter_key);
    let n = cs.len();
    let mut count: usize = 0;
    let mut pos: usize = 0;
    let mut i: usize = 0;
    while i < n
        invariant
            n == cs@.len(),
            cs@ == chapter_key@,
            i <= n,
            count <= i,
            count == 0 ==> forall|j: int| 0 <= j < i ==> cs@[j] != '/',
            count == 1 ==> pos < i && cs@[pos as int] == '/' && forall|j: int|
                0 <= j < i && j != pos ==> cs@[j] != '/',
            count >= 2 ==> exists|j1: int, j2: int|
                0 <= j1 < j2 < i && cs@[j1] == '/' && cs@[j2] == '/',
        decreases n - i,
    {
        if cs[i] == '/' {
            if count == 0 {
                pos = i;
            } else if count == 1 {
                assert(cs@[pos as int] == '/' && cs@[i as int] == '/');
            }
            if count < 2 {
                count = count + 1;
            }
        }
        i = i + 1;
    }
    if count == 1 {
        let first = String::from_str(chapter_key.substring_char(0, pos));
        let second = String::from_str(chapter_key.substring_char(pos + 1, n));
        assert(single_at(chapter_key@, '/', pos as int));
        return (first, second);
    }
    proof {
        if count >= 2 {
            let (j1, j2) = choose|j1: int, j2: int|
                0 <= j1 < j2 < n && cs@[j1] == '/' && cs@[j2] == '/';
            assert forall|p: int| !single_at(chapter_key@, '/', p) by {
                if single_at(chapter_key@, '/', p) {
                    assert(j1 == p && j2 == p);
                }
            }
        } else {
            assert forall|p: int| !single_at(chapter_key@, '/', p) by {
                if single_at(chapter_key@, '/', p) {
                    assert(cs@[p] == '/');
                }
            }
        }
    }
    (String::from_str(manga_key), String::from_str(chapter_key))
}

/// The reading layout of a title: `direction` 2 reads left to right, and
/// as a vertical strip when `islong` is 1; anything else reads right to left.
pub fn viewer_for(direction: Option<i32>, islong: Option<i32>) -> (r: Viewer)
    ensures
        r == (if direction == Some(2i32) && islong == Some(1i32) {
            Viewer::Webtoon
        } else if direction == Some(2i32) {
            Viewer::LeftToRight
        } else {
            Viewer::RightToLeft
        }),
{
    match (direction, islong) {
        (Some(2), Some(1)) => Viewer::Webtoon,
        (Some(2), _) => Viewer::LeftToRight,
        _ => Viewer::RightToLeft,
    }
}

/// The status and rating that a detail's status tags give: the last tag
/// that names a status wins; a tag that mentions "成人" or "18" makes the
/// title for adults.
pub open spec fn detail_status_of(names: Seq<Option<String>>) -> (MangaStatus, ContentRating)
    decreases names.len(),
{
    if names.len() == 0 {
        (MangaStatus::Unknown, ContentRating::Safe)
    } else {
        let (s, c) = detail_status_of(names.drop_last());
        match names.last() {
            None => (s, c),
            Some(n) => {
                let parsed = status_of(n@);
                let s2 = if parsed != MangaStatus::Unknown {
                    parsed
                } else {
                    s
                };
                let c2 = if contains_seq(n@, "成人"@) || contains_seq(n@, "18"@) {
                    ContentRating::Nsfw
                } else {
                    c
                };
                (s2, c2)
            },
        }
    }
}

/// Reads the status and rating of a title from its detail's status tags.
pub fn detail_status(names: &Vec<Option<String>>) -> (r: (MangaStatus, ContentRating))
    ensures
        r == detail_status_of(names@),
{
    let adult = chars_of("成人");
    let eighteen = chars_of("18");
    let mut status = MangaStatus::Unknown;
    let mut rating = ContentRating::Safe;
    let mut i: usize = 0;
    while i < names.len()
        invariant
            i <= names@.len(),
            adult@ == "成人"@,
            eighteen@ == "18"@,
            (status, rating) == detail_status_of(names@.subrange(0, i as int)),
        decreases names@.len() - i,
    {
        assert(names@.subrange(0, i + 1).drop_last() =~= names@.subrange(0, i as int));
        match &names[i] {
            None => {},
            Some(n) => {
                let parsed = parse_status(n.as_str());
                if parsed != MangaStatus::Unknown {
                    status = parsed;
                }
                let cs = chars_of(n.as_str());
                if contains_chars(&cs, &adult) || contains_chars(&cs, &eighteen) {
                    rating = ContentRating::Nsfw;
                }
            },
        }
        i = i + 1;
    }
    assert(names@.subrange(0, names@.len() as int) =~= names@);
    (status, rating)
}

/// A record that stands for a ranking entry (its status from its label).
pub open spec fn rank_record(r: MangaRecord, item: RankItem) -> bool {
    is_record_of(r, item.comic_id, item.title, item.cover, item.authors, item.status)
}

impl RankItem {
    /// The list record of this ranking entry.
    pub fn into_record(self) -> (r: MangaRecord)
        ensures
            rank_record(r, self),
    {
        let f = FilterItem {
            id: self.comic_id,
            name: self.title,
            cover: self.cover,
            authors: self.authors,
            status: self.status,
            last_update_chapter_name: None,
            last_update_chapter_id: None,
            last_updatetime: None,
        };
        f.into_record()
    }
}

/// A record that stands for a subscription entry: no name gives an empty
/// title, and the status is unknown.
pub open spec fn subscribe_record(r: MangaRecord, item: SubscribeItem) -> bool {
    &&& is_record_of(r, item.id, r.title, item.cover, item.authors, None)
    &&& r.title@ == (match item.name {
        Some(n) => n@,
        None => Seq::<char>::empty(),
    })
}

impl SubscribeItem {
    /// The list record of this subscription entry.
    pub fn into_record(self) -> (r: MangaRecord)
        ensures
            subscribe_record(r, self),
    {
        let title = match self.name {
            Some(n) => n,
            None => String::new(),
        };
        let f = FilterItem {
            id: self.id,
            name: title,
            cover: self.cover,
            authors: self.authors,
            status: None,
            last_update_chapter_name: None,
            last_update_chapter_id: None,
            last_updatetime: None,
        };
        f.into_record()
    }
}

/// The page of a filter listing: the entries with a positive ID, in order;
/// more pages follow while this one is not empty.
pub fn manga_list_from_filter(items: Vec<FilterItem>) -> (r: PageResult)
    ensures
        r.entries@.len() == items@.filter(|it: FilterItem| it.id > 0).len(),
        forall|i: int|
            0 <= i < r.entries@.len() ==> filter_record(
                #[trigger] r.entries@[i],
                items@.filter(|it: FilterItem| it.id > 0)[i],
            ),
        r.has_next_page == (r.entries@.len() > 0),
{
    let mut items = items;
    let ghost all = items@;
    let total = items.len();
    let mut entries: Vec<MangaRecord> = Vec::new();
    let mut k: usize = 0;
    while items.len() > 0
        invariant
            k + items@.len() == all.len(),
            all.len() == total,
            items@ == all.subrange(k as int, all.len() as int),
            entries@.len() == all.subrange(0, k as int).filter(|it: FilterItem| it.id > 0).len(),
            forall|i: int|
                0 <= i < entries@.len() ==> filter_record(
                    #[trigger] entries@[i],
                    all.subrange(0, k as int).filter(|it: FilterItem| it.id > 0)[i],
                ),
        decreases items@.len(),
    {
        let it = items.remove(0);
        assert(it == all[k as int]);
        assert(items@ =~= all.subrange(k + 1, all.len() as int));
        let ghost pre = all.subrange(0, k as int);
        assert(all.subrange(0, k + 1) =~= pre.push(it));
        proof {
            pre.lemma_filter_push(it, |it: FilterItem| it.id > 0);
        }
        if it.id > 0 {
            let ghost before = entries@;
            entries.push(it.into_record());
            assert forall|i: int|
                0 <= i < entries@.len() implies filter_record(
                #[trigger] entries@[i],
                all.subrange(0, k + 1).filter(|it: FilterItem| it.id > 0)[i],
            ) by {
                if i < before.len() {
                    assert(entries@[i] == before[i]);
                }
            }
        }
        k = k + 1;
    }
    assert(all.subrange(0, all.len() as int) =~= all);
    let has_next_page = entries.len() > 0;
    PageResult { entries, has_next_page }
}

/// The page of a ranking: the entries with a positive ID, in order; more
/// pages follow while this one is not empty.
pub fn manga_list_from_ranks(items: Vec<RankItem>) -> (r: PageResult)
    ensures
        r.entries@.len() == items@.filter(|it: RankItem| it.comic_id > 0).len(),
        forall|i: int|
            0 <= i < r.entries@.len() ==> rank_record(
                #[trigger] r.entries@[i],
                items@.filter(|it: RankItem| it.comic_id > 0)[i],
            ),
        r.has_next_page == (r.entries@.len() > 0),
{
    let mut items = items;
    let ghost all = items@;
    let total = items.len();
    let mut entries: Vec<MangaRecord> = Vec::new();
    let mut k: usize = 0;
    while items.len() > 0
        invariant
            k + items@.len() == all.len(),
            all.len() == total,
            items@ == all.subrange(k as int, all.len() as int),
            entries@.len() == all.subrange(0, k as int).filter(|it: RankItem| it.comic_id > 0).len(),
            forall|i: int|
                0 <= i < entries@.len() ==> rank_record(
                    #[trigger] entries@[i],
                    all.subrange(0, k as int).filter(|it: RankItem| it.comic_id > 0)[i],
                ),
        decreases items@.len(),
    {
        let it = items.remove(0);
        assert(it == all[k as int]);
        assert(items@ =~= all.subrange(k + 1, all.len() as int));
        let ghost pre = all.subrange(0, k as int);
        assert(all.subrange(0, k + 1) =~= pre.push(it));
        proof {
            pre.lemma_filter_push(it, |it: RankItem| it.comic_id > 0);
        }
        if it.comic_id > 0 {
            let ghost before = entries@;
            let ghost item = it;
            entries.push(it.into_record());
            assert forall|i: int|
                0 <= i < entries@.len() implies rank_record(
                #[trigger] entries@[i],
                all.subrange(0, k + 1).filter(|it: RankItem| it.comic_id > 0)[i],
            ) by {
                if i < before.len() {
                    assert(entries@[i] == before[i]);
                }
            }
        }
        k = k + 1;
    }
    assert(all.subrange(0, all.len() as int) =~= all);
    let has_next_page = entries.len() > 0;
    PageResult { entries, has_next_page }
}

/// The page of the subscription list: the entries with a positive ID, in
/// order; a full page of fifty means more may follow.
pub fn manga_list_from_subscribes(items: Vec<SubscribeItem>) -> (r: PageResult)
    ensures
        r.entries@.len() == items@.filter(|it: SubscribeItem| it.id > 0).len(),
        forall|i: int|
            0 <= i < r.entries@.len() ==> subscribe_record(
                #[trigger] r.entries@[i],
                items@.filter(|it: SubscribeItem| it.id > 0)[i],
            ),
        r.has_next_page == (r.entries@.len() >= SUBSCRIBE_PAGE_SIZE),
{
    let mut items = items;
    let ghost all = items@;
    let total = items.len();
    let mut entries: Vec<MangaRecord> = Vec::new();
    let mut k: usize = 0;
    while items.len() > 0
        invariant
            k + items@.len() == all.len(),
            all.len() == total,
            items@ == all.subrange(k as int, all.len() as int),
            entries@.len() == all.subrange(0, k as int).filter(|it: SubscribeItem| it.id > 0).len(),
            forall|i: int|
                0 <= i < entries@.len() ==> subscribe_record(
                    #[trigger] entries@[i],
                    all.subrange(0, k as int).filter(|it: SubscribeItem| it.id > 0)[i],
                ),
        decreases items@.len(),
    {
        let it = items.remove(0);
        assert(it == all[k as int]);
        assert(items@ =~= all.subrange(k + 1, all.len() as int));
        let ghost pre = all.subrange(0, k as int);
        assert(all.subrange(0, k + 1) =~= pre.push(it));
        proof {
            pre.lemma_filter_push(it, |it: SubscribeItem| it.id > 0);
        }
        if it.id > 0 {
            let ghost before = entries@;
            entries.push(it.into_record());
            assert forall|i: int|
                0 <= i < entries@.len() implies subscribe_record(
                #[trigger] entries@[i],
                all.subrange(0, k + 1).filter(|it: SubscribeItem| it.id > 0)[i],
            ) by {
                if i < before.len() {
                    assert(entries@[i] == before[i]);
                }
            }
        }
        k = k + 1;
    }
    assert(all.subrange(0, all.len() as int) =~= all);
    let has_next_page = entries.len() >= SUBSCRIBE_PAGE_SIZE;
    PageResult { entries, has_next_page }
}

} // verus!

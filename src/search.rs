//! The steps of an author search: candidates, their details, tag pages,
//! hidden content and the final page.

use vstd::prelude::*;

use crate::matcher::{author_matches, field_has_exact_token, some_token_is, MatchResult};
use crate::merger::{offer_spec, MangaMerger, MergeState};
use crate::models::{decimal_of, is_record_of, AuthorTag, FilterData, FilterItem, MangaRecord, PageResult, SearchItem};
use crate::tags::{dedup, extract_author_tags_from_detail, ids_of_class, tags_of};

verus! {

/// The page size of the tag (complete works) queries.
pub const TAG_PAGE_SIZE: i64 = 100;

/// What a title's detail lookup brings back that the search reads: its
/// credited authors.
#[derive(Clone, Debug)]
pub struct CandidateDetail {
    pub authors: Option<Vec<AuthorTag>>,
}

/// The state of one search round (a keyword query and the detail lookups of
/// its candidates), kept across the rounds of one author search.
pub struct RoundState {
    /// Author fields already looked up.
    pub seen_authors: Seq<Seq<char>>,
    /// Tag IDs of strictly matching authors, without repeats.
    pub strict_ids: Seq<i64>,
    /// Tag IDs of partially matching authors, without repeats.
    pub partial_ids: Seq<i64>,
    /// Candidates whose detail confirmed a match, and those whose author
    /// field was already looked up.
    pub matched: Seq<SearchItem>,
    /// Candidates whose detail confirmed a strict match.
    pub strict_manga: Seq<SearchItem>,
}

/// The author field of a hit, the empty text when it has none.
pub open spec fn author_key(item: SearchItem) -> Seq<char> {
    match item.authors {
        Some(a) => a@,
        None => Seq::<char>::empty(),
    }
}

/// `d` followed by the values of `s` that it does not hold yet, in order.
pub open spec fn add_new(d: Seq<i64>, s: Seq<i64>) -> Seq<i64>
    decreases s.len(),
{
    if s.len() == 0 {
        d
    } else {
        let r = add_new(d, s.drop_last());
        if r.contains(s.last()) {
            r
        } else {
            r.push(s.last())
        }
    }
}

/// The match class of a whole detail: strict if some tag is, else partial if some is.
pub open spec fn detail_class(tags: Seq<AuthorTag>, target: Seq<char>) -> MatchResult {
    if dedup(ids_of_class(tags, target, MatchResult::Strict)).len() > 0 {
        MatchResult::Strict
    } else if dedup(ids_of_class(tags, target, MatchResult::Partial)).len() > 0 {
        MatchResult::Partial
    } else {
        MatchResult::Unmatched
    }
}

/// One candidate and its lookup: a candidate whose author field was already
/// looked up counts as matched; a failed lookup contributes nothing; a
/// successful one records the field and adds its tag IDs.
pub open spec fn absorb_one(
    st: RoundState,
    cand: SearchItem,
    detail: Option<CandidateDetail>,
    target: Seq<char>,
) -> RoundState {
    if st.seen_authors.contains(author_key(cand)) {
        RoundState { matched: st.matched.push(cand), ..st }
    } else {
        match detail {
            None => st,
            Some(d) => {
                let tags = tags_of(d.authors);
                let strict = dedup(ids_of_class(tags, target, MatchResult::Strict));
                let partial = dedup(ids_of_class(tags, target, MatchResult::Partial));
                let c = detail_class(tags, target);
                RoundState {
                    seen_authors: st.seen_authors.push(author_key(cand)),
                    strict_ids: add_new(st.strict_ids, strict),
                    partial_ids: add_new(st.partial_ids, partial),
                    matched: if c != MatchResult::Unmatched {
                        st.matched.push(cand)
                    } else {
                        st.matched
                    },
                    strict_manga: if c == MatchResult::Strict {
                        st.strict_manga.push(cand)
                    } else {
                        st.strict_manga
                    },
                }
            },
        }
    }
}

/// The lookup result for the `i`-th candidate; a missing slot is a failure.
pub open spec fn slot(details: Seq<Option<CandidateDetail>>, i: int) -> Option<CandidateDetail> {
    if 0 <= i < details.len() {
        details[i]
    } else {
        None
    }
}

/// The candidates taken in order, each with the lookup in the same position.
pub open spec fn absorb_all(
    st: RoundState,
    cands: Seq<SearchItem>,
    details: Seq<Option<CandidateDetail>>,
    target: Seq<char>,
) -> RoundState
    decreases cands.len(),
{
    if cands.len() == 0 {
        st
    } else {
        absorb_one(
            absorb_all(st, cands.drop_last(), details, target),
            cands.last(),
            slot(details, cands.len() - 1),
            target,
        )
    }
}

/// The hits whose author field matches the target, in order.
pub open spec fn matching_items(list: Seq<SearchItem>, target: Seq<char>) -> Seq<SearchItem> {
    list.filter(|item: SearchItem| author_matches(item.authors, target))
}

/// The tag IDs that decide the result: the strict ones when there are any,
/// else the partial ones.
pub open spec fn chosen_ids(strict: Seq<i64>, partial: Seq<i64>) -> Seq<i64> {
    if strict.len() > 0 {
        strict
    } else {
        partial
    }
}

/// The entries of the pages that came back, in order.
pub open spec fn page_items(pages: Seq<Option<FilterData>>) -> Seq<FilterItem>
    decreases pages.len(),
{
    if pages.len() == 0 {
        Seq::<FilterItem>::empty()
    } else {
        let rest = page_items(pages.drop_last());
        match pages.last() {
            Some(d) => rest + d.comic_list@,
            None => rest,
        }
    }
}

/// The largest total that a page that came back reports, 0 when none does.
pub open spec fn pages_total(pages: Seq<Option<FilterData>>) -> i64
    decreases pages.len(),
{
    if pages.len() == 0 {
        0
    } else {
        let rest = pages_total(pages.drop_last());
        match pages.last() {
            Some(d) => match d.total {
                Some(t) => if t > rest {
                    t
                } else {
                    rest
                },
                None => rest,
            },
            None => rest,
        }
    }
}

/// Whether more pages follow: by the reported total when there is one,
/// else by the number of merged entries.
pub open spec fn next_page_spec(tag_total: i64, count: int) -> bool {
    if tag_total > 0 {
        tag_total >= TAG_PAGE_SIZE
    } else {
        count >= TAG_PAGE_SIZE
    }
}

/// Whether a hidden entry counts as the author's: in strict mode one of its
/// `,`-separated authors is the target exactly, else the matcher's rule.
pub open spec fn hidden_match(item: FilterItem, target: Seq<char>, strict_mode: bool) -> bool {
    if strict_mode {
        item.authors.is_some() && some_token_is(item.authors.unwrap()@, target)
    } else {
        author_matches(item.authors, target)
    }
}

/// A record that stands for `item`.
pub open spec fn filter_record(r: MangaRecord, item: FilterItem) -> bool {
    is_record_of(r, item.id, item.name, item.cover, item.authors, item.status)
}

pub open spec fn search_record(r: MangaRecord, item: SearchItem) -> bool {
    is_record_of(r, item.id, item.title, item.cover, item.authors, item.status)
}

/// The IDs that offering filter entries in order adds to a merger.
pub open spec fn offered_ids(ids: Seq<i64>, items: Seq<FilterItem>) -> Seq<i64>
    decreases items.len(),
{
    if items.len() == 0 {
        ids
    } else {
        let prev = offered_ids(ids, items.drop_last());
        let id = items.last().id;
        if id > 0 && !prev.contains(id) {
            prev.push(id)
        } else {
            prev
        }
    }
}

/// The test that the hidden-content scan applies to each entry.
pub open spec fn hidden_pred(target: Seq<char>, strict_mode: bool) -> spec_fn(FilterItem) -> bool {
    |item: FilterItem| hidden_match(item, target, strict_mode)
}

/// A search hit read as a filter entry: same ID, its title as name, same
/// cover, authors and status.
pub open spec fn as_filter(s: SearchItem) -> FilterItem {
    FilterItem {
        id: s.id,
        name: s.title,
        cover: s.cover,
        authors: s.authors,
        status: s.status,
        last_update_chapter_name: None,
        last_update_chapter_id: None,
        last_updatetime: None,
    }
}

pub open spec fn as_filters(s: Seq<SearchItem>) -> Seq<FilterItem> {
    s.map_values(|x: SearchItem| as_filter(x))
}

/// `r` is the record of the first of `src` that carries `id`.
pub open spec fn stands_first(r: MangaRecord, id: i64, src: Seq<FilterItem>) -> bool {
    exists|j: int|
        0 <= j < src.len() && #[trigger] src[j].id == id && filter_record(r, src[j]) && forall|k: int|
            0 <= k < j ==> src[k].id != id
}

/// What merging the sources `src` in order gives: the positive IDs, each
/// once, in order of first appearance, and for each ID the record of the
/// first source that carries it.
pub open spec fn merged_from(st: MergeState, src: Seq<FilterItem>) -> bool {
    &&& st.ids == offered_ids(Seq::empty(), src)
    &&& st.records.len() == st.ids.len()
    &&& forall|i: int| 0 <= i < st.ids.len() ==> stands_first(#[trigger] st.records[i], st.ids[i], src)
}

/// The IDs that offering `items` adds are the positive IDs among them.
pub proof fn lemma_offered_contains(items: Seq<FilterItem>, x: i64)
    ensures
        offered_ids(Seq::empty(), items).contains(x) <==> (x > 0 && exists|k: int|
            0 <= k < items.len() && items[k].id == x),
    decreases items.len(),
{
    if items.len() > 0 {
        let prev = items.drop_last();
        lemma_offered_contains(prev, x);
        let last = items.last();
        let r = offered_ids(Seq::empty(), prev);
        if last.id > 0 && !r.contains(last.id) {
            crate::tags::lemma_push_contains(r, last.id);
        }
        if exists|k: int| 0 <= k < items.len() && items[k].id == x {
            let k = choose|k: int| 0 <= k < items.len() && items[k].id == x;
            if k < items.len() - 1 {
                assert(prev[k].id == x);
            }
        }
        if exists|k: int| 0 <= k < prev.len() && prev[k].id == x {
            let k = choose|k: int| 0 <= k < prev.len() && prev[k].id == x;
            assert(items[k].id == x);
        }
    }
}

/// Merging the sources gives positive IDs, each once.
pub proof fn lemma_offered_distinct(items: Seq<FilterItem>)
    ensures
        offered_ids(Seq::empty(), items).no_duplicates(),
        forall|i: int|
            0 <= i < offered_ids(Seq::empty(), items).len() ==> #[trigger] offered_ids(
                Seq::empty(),
                items,
            )[i] > 0,
    decreases items.len(),
{
    if items.len() > 0 {
        lemma_offered_distinct(items.drop_last());
    }
}

/// A merged result has positive, distinct IDs, and each record's key is its
/// ID in decimal.
pub proof fn lemma_merged_keys(st: MergeState, src: Seq<FilterItem>)
    requires
        merged_from(st, src),
    ensures
        st.ids.no_duplicates(),
        forall|i: int|
            0 <= i < st.ids.len() ==> st.ids[i] > 0 && (#[trigger] st.records[i]).key@
                == decimal_of(st.ids[i] as int),
{
    lemma_offered_distinct(src);
    assert forall|i: int| 0 <= i < st.ids.len() implies st.ids[i] > 0 && (
    #[trigger] st.records[i]).key@ == decimal_of(st.ids[i] as int) by {
        assert(stands_first(st.records[i], st.ids[i], src));
    }
}

proof fn lemma_merged_push(st: MergeState, src: Seq<FilterItem>, it: FilterItem, rec: MangaRecord)
    requires
        merged_from(st, src),
        filter_record(rec, it),
    ensures
        merged_from(offer_spec(st, it.id as int, rec), src.push(it)),
{
    let ns = src.push(it);
    assert(ns.drop_last() =~= src);
    lemma_offered_contains(src, it.id);
    let nst = offer_spec(st, it.id as int, rec);
    assert forall|i: int| 0 <= i < st.ids.len() implies stands_first(
        #[trigger] st.records[i],
        st.ids[i],
        ns,
    ) by {
        let j = choose|j: int|
            0 <= j < src.len() && #[trigger] src[j].id == st.ids[i] && filter_record(st.records[i], src[j])
                && forall|k: int| 0 <= k < j ==> src[k].id != st.ids[i];
        assert(ns[j] == src[j]);
        assert forall|k: int| 0 <= k < j implies ns[k].id != st.ids[i] by {
            assert(ns[k] == src[k]);
        }
    }
    if it.id > 0 && !st.ids.contains(it.id) {
        assert forall|i: int| 0 <= i < nst.ids.len() implies stands_first(
            #[trigger] nst.records[i],
            nst.ids[i],
            ns,
        ) by {
            if i < st.ids.len() {
                assert(nst.records[i] == st.records[i]);
                assert(nst.ids[i] == st.ids[i]);
            } else {
                let j = src.len() as int;
                assert(ns[j] == it);
                assert forall|k: int| 0 <= k < j implies ns[k].id != it.id by {
                    assert(ns[k] == src[k]);
                }
            }
        }
    }
}

/// A field-for-field copy of an optional text.
fn copy_text(s: &Option<String>) -> (r: Option<String>)
    ensures
        r == *s,
{
    match s {
        Some(t) => Some(t.clone()),
        None => None,
    }
}

/// A field-for-field copy of a search hit.
pub fn copy_item(item: &SearchItem) -> (r: SearchItem)
    ensures
        r == *item,
{
    SearchItem {
        id: item.id,
        title: item.title.clone(),
        cover: copy_text(&item.cover),
        authors: copy_text(&item.authors),
        status: copy_text(&item.status),
    }
}

/// A copy of a list of search hits.
pub fn copy_items(v: &Vec<SearchItem>) -> (r: Vec<SearchItem>)
    ensures
        r@ == v@,
{
    let mut r: Vec<SearchItem> = Vec::new();
    let mut i: usize = 0;
    while i < v.len()
        invariant
            i <= v@.len(),
            r@ == v@.subrange(0, i as int),
        decreases v@.len() - i,
    {
        r.push(copy_item(&v[i]));
        i = i + 1;
    }
    assert(r@ =~= v@);
    r
}

/// A copy of a list of IDs.
pub fn copy_ids(v: &Vec<i64>) -> (r: Vec<i64>)
    ensures
        r@ == v@,
{
    let mut r: Vec<i64> = Vec::new();
    let mut i: usize = 0;
    while i < v.len()
        invariant
            i <= v@.len(),
            r@ == v@.subrange(0, i as int),
        decreases v@.len() - i,
    {
        r.push(v[i]);
        i = i + 1;
    }
    assert(r@ =~= v@);
    r
}

/// The hits of a keyword search whose author field matches the target
/// author, strictly or partially, in order.
pub fn select_candidates(list: &Vec<SearchItem>, target_author: &str) -> (r: Vec<SearchItem>)
    ensures
        r@ == matching_items(list@, target_author@),
{
    let mut r: Vec<SearchItem> = Vec::new();
    let mut i: usize = 0;
    while i < list.len()
        invariant
            i <= list@.len(),
            r@ == matching_items(list@.subrange(0, i as int), target_author@),
        decreases list@.len() - i,
    {
        let item = &list[i];
        let ghost pre = list@.subrange(0, i as int);
        assert(list@.subrange(0, i + 1) =~= pre.push(list@[i as int]));
        proof {
            pre.lemma_filter_push(
                list@[i as int],
                |item: SearchItem| author_matches(item.authors, target_author@),
            );
        }
        if item.matches_author(target_author) {
            r.push(copy_item(item));
        }
        i = i + 1;
    }
    assert(list@.subrange(0, list@.len() as int) =~= list@);
    r
}

/// Appends to `d` each value of `s` that it does not hold yet.
fn add_new_ids(d: &mut Vec<i64>, s: &Vec<i64>)
    ensures
        final(d)@ == add_new(old(d)@, s@),
{
    let mut i: usize = 0;
    while i < s.len()
        invariant
            i <= s@.len(),
            d@ == add_new(old(d)@, s@.subrange(0, i as int)),
        decreases s@.len() - i,
    {
        let x = s[i];
        assert(s@.subrange(0, i + 1).drop_last() =~= s@.subrange(0, i as int));
        let mut found = false;
        let mut j: usize = 0;
        while j < d.len()
            invariant
                j <= d@.len(),
                found == exists|k: int| 0 <= k < j && d@[k] == x,
            decreases d@.len() - j,
        {
            if d[j] == x {
                found = true;
            }
            j = j + 1;
        }
        if !found {
            d.push(x);
        }
        i = i + 1;
    }
    assert(s@.subrange(0, s@.len() as int) =~= s@);
}

/// Whether `seen` holds the text `key`.
pub fn holds_text(seen: &Vec<String>, key: &String) -> (r: bool)
    ensures
        r == seen@.map_values(|s: String| s@).contains(key@),
{
    let ghost views = seen@.map_values(|s: String| s@);
    let mut i: usize = 0;
    while i < seen.len()
        invariant
            i <= seen@.len(),
            views == seen@.map_values(|s: String| s@),
            forall|k: int| 0 <= k < i ==> views[k] != key@,
        decreases seen@.len() - i,
    {
        let a = crate::text::chars_of(seen[i].as_str());
        let b = crate::text::chars_of(key.as_str());
        if crate::text::same_chars(&a, &b) {
            assert(views[i as int] == key@);
            return true;
        }
        i = i + 1;
    }
    false
}

/// The author field of a hit as owned text.
fn author_key_of(item: &SearchItem) -> (r: String)
    ensures
        r@ == author_key(*item),
{
    match &item.authors {
        Some(a) => a.clone(),
        None => String::new(),
    }
}

/// The working state of the rounds of one author search.
pub struct Round {
    pub seen_authors: Vec<String>,
    pub strict_ids: Vec<i64>,
    pub partial_ids: Vec<i64>,
    pub matched: Vec<SearchItem>,
    pub strict_manga: Vec<SearchItem>,
}

impl Round {
    pub open spec fn view(&self) -> RoundState {
        RoundState {
            seen_authors: self.seen_authors@.map_values(|s: String| s@),
            strict_ids: self.strict_ids@,
            partial_ids: self.partial_ids@,
            matched: self.matched@,
            strict_manga: self.strict_manga@,
        }
    }

    /// A round state with nothing recorded.
    pub fn new() -> (r: Round)
        ensures
            r.view().seen_authors.len() == 0,
            r.view().strict_ids.len() == 0,
            r.view().partial_ids.len() == 0,
            r.view().matched.len() == 0,
            r.view().strict_manga.len() == 0,
    {
        Round {
            seen_authors: Vec::new(),
            strict_ids: Vec::new(),
            partial_ids: Vec::new(),
            matched: Vec::new(),
            strict_manga: Vec::new(),
        }
    }

    /// Takes in the detail lookups of the candidates, the `i`-th lookup
    /// belonging to the `i`-th candidate (a missing or failed one counts as
    /// nothing found).
    pub fn absorb_details(
        &mut self,
        candidates: &Vec<SearchItem>,
        details: &Vec<Option<CandidateDetail>>,
        target_author: &str,
    )
        ensures
            final(self).view() == absorb_all(old(self).view(), candidates@, details@, target_author@),
    {
        let mut i: usize = 0;
        while i < candidates.len()
            invariant
                i <= candidates@.len(),
                self.view() == absorb_all(
                    old(self).view(),
                    candidates@.subrange(0, i as int),
                    details@,
                    target_author@,
                ),
            decreases candidates@.len() - i,
        {
            let cand = &candidates[i];
            let ghost before = self.view();
            assert(candidates@.subrange(0, i + 1).drop_last() =~= candidates@.subrange(0, i as int));
            assert(candidates@.subrange(0, i + 1).last() == candidates@[i as int]);
            let key = author_key_of(cand);
            if holds_text(&self.seen_authors, &key) {
                self.matched.push(copy_item(cand));
                assert(self.view().seen_authors =~= before.seen_authors);
            } else if i < details.len() {
                match &details[i] {
                    None => {},
                    Some(d) => {
                        let ghost old_seen = self.seen_authors@;
                        self.seen_authors.push(key);
                        assert(self.seen_authors@.map_values(|s: String| s@) =~= old_seen.map_values(
                            |s: String| s@,
                        ).push(author_key(*cand)));
                        let res = extract_author_tags_from_detail(&d.authors, target_author);
                        add_new_ids(&mut self.strict_ids, &res.strict_ids);
                        add_new_ids(&mut self.partial_ids, &res.partial_ids);
                        if res.match_type == MatchResult::Strict {
                            self.matched.push(copy_item(cand));
                            self.strict_manga.push(copy_item(cand));
                        } else if res.match_type == MatchResult::Partial {
                            self.matched.push(copy_item(cand));
                        }
                    },
                }
            }
            i = i + 1;
        }
        assert(candidates@.subrange(0, candidates@.len() as int) =~= candidates@);
    }
}

/// The tag IDs that decide the result: the strict ones when there are any,
/// else the partial ones.
pub fn choose_tag_ids(strict_ids: &Vec<i64>, partial_ids: &Vec<i64>) -> (r: Vec<i64>)
    ensures
        r@ == chosen_ids(strict_ids@, partial_ids@),
{
    if strict_ids.len() > 0 {
        copy_ids(strict_ids)
    } else {
        copy_ids(partial_ids)
    }
}

/// Whether the fuzzy fallback runs: only when the direct stage found no tag
/// ID to use and matched no candidate.
pub fn needs_fuzzy(direct_ids: &Vec<i64>, matched: &Vec<SearchItem>) -> (r: bool)
    ensures
        r == (direct_ids@.len() == 0 && matched@.len() == 0),
{
    direct_ids.len() == 0 && matched.len() == 0
}

/// The entries of the tag pages that came back, in order, and the largest
/// total that one of them reports (0 when none does). Failed pages
/// contribute nothing.
pub fn combine_tag_pages(pages: Vec<Option<FilterData>>) -> (r: (Vec<FilterItem>, i64))
    ensures
        r.0@ == page_items(pages@),
        r.1 == pages_total(pages@),
{
    let mut pages = pages;
    let ghost all = pages@;
    let total_pages = pages.len();
    let mut items: Vec<FilterItem> = Vec::new();
    let mut total: i64 = 0;
    let mut k: usize = 0;
    while pages.len() > 0
        invariant
            k + pages@.len() == all.len(),
            all.len() == total_pages,
            pages@ == all.subrange(k as int, all.len() as int),
            items@ == page_items(all.subrange(0, k as int)),
            total == pages_total(all.subrange(0, k as int)),
        decreases pages@.len(),
    {
        let p = pages.remove(0);
        assert(p == all[k as int]);
        assert(all.subrange(0, k + 1).drop_last() =~= all.subrange(0, k as int));
        assert(all.subrange(0, k + 1).last() == p);
        assert(pages@ =~= all.subrange(k + 1, all.len() as int));
        match p {
            Some(d) => {
                match d.total {
                    Some(t) => {
                        if t > total {
                            total = t;
                        }
                    },
                    None => {},
                }
                let mut list = d.comic_list;
                items.append(&mut list);
            },
            None => {},
        }
        k = k + 1;
    }
    assert(all.subrange(0, all.len() as int) =~= all);
    (items, total)
}

/// Whether more pages follow: when some tag page reports a total, whether
/// it reaches the tag page size; otherwise whether the merged entries do.
pub fn has_next_page(tag_total: i64, count: usize) -> (r: bool)
    ensures
        r == next_page_spec(tag_total, count as int),
{
    if tag_total > 0 {
        tag_total >= TAG_PAGE_SIZE
    } else {
        count >= TAG_PAGE_SIZE as usize
    }
}

/// Offers the filter entries to the merger in order, each under its ID: the
/// sources of what the merger holds grow by `items`.
pub fn merge_filter_items(merger: &mut MangaMerger, items: Vec<FilterItem>)
    requires
        old(merger).wf(),
    ensures
        final(merger).wf(),
        forall|prior: Seq<FilterItem>|
            #[trigger] merged_from(old(merger).state(), prior) ==> merged_from(
                final(merger).state(),
                prior + items@,
            ),
{
    let mut items = items;
    let ghost all = items@;
    let ghost start = merger.state();
    let total = items.len();
    let mut k: usize = 0;
    assert forall|prior: Seq<FilterItem>| #[trigger] merged_from(start, prior) implies merged_from(
        merger.state(),
        prior + all.subrange(0, 0),
    ) by {
        assert(prior + all.subrange(0, 0) =~= prior);
    }
    while items.len() > 0
        invariant
            merger.wf(),
            k + items@.len() == all.len(),
            all.len() == total,
            items@ == all.subrange(k as int, all.len() as int),
            forall|prior: Seq<FilterItem>|
                #[trigger] merged_from(start, prior) ==> merged_from(
                    merger.state(),
                    prior + all.subrange(0, k as int),
                ),
        decreases items@.len(),
    {
        let it = items.remove(0);
        assert(it == all[k as int]);
        assert(items@ =~= all.subrange(k + 1, all.len() as int));
        let id = it.id;
        let rec = it.into_record();
        let ghost before = merger.state();
        merger.try_add(id, rec);
        proof {
            assert forall|prior: Seq<FilterItem>| #[trigger] merged_from(start, prior) implies merged_from(
                merger.state(),
                prior + all.subrange(0, k + 1),
            ) by {
                lemma_merged_push(before, prior + all.subrange(0, k as int), it, rec);
                assert(prior + all.subrange(0, k + 1) =~= (prior + all.subrange(0, k as int)).push(it));
            }
        }
        k = k + 1;
    }
    assert(all.subrange(0, all.len() as int) =~= all);
}

/// Offers the search hits to the merger in order, each under its ID: the
/// sources grow by the hits, each read as a filter entry.
pub fn merge_search_items(merger: &mut MangaMerger, items: Vec<SearchItem>)
    requires
        old(merger).wf(),
    ensures
        final(merger).wf(),
        forall|prior: Seq<FilterItem>|
            #[trigger] merged_from(old(merger).state(), prior) ==> merged_from(
                final(merger).state(),
                prior + as_filters(items@),
            ),
{
    let mut items = items;
    let ghost all = items@;
    let ghost start = merger.state();
    let total = items.len();
    let mut k: usize = 0;
    assert forall|prior: Seq<FilterItem>| #[trigger] merged_from(start, prior) implies merged_from(
        merger.state(),
        prior + as_filters(all.subrange(0, 0)),
    ) by {
        assert(prior + as_filters(all.subrange(0, 0)) =~= prior);
    }
    while items.len() > 0
        invariant
            merger.wf(),
            k + items@.len() == all.len(),
            all.len() == total,
            items@ == all.subrange(k as int, all.len() as int),
            forall|prior: Seq<FilterItem>|
                #[trigger] merged_from(start, prior) ==> merged_from(
                    merger.state(),
                    prior + as_filters(all.subrange(0, k as int)),
                ),
        decreases items@.len(),
    {
        let it = items.remove(0);
        assert(it == all[k as int]);
        assert(items@ =~= all.subrange(k + 1, all.len() as int));
        let id = it.id;
        let ghost item = it;
        let rec = it.into_record();
        let ghost before = merger.state();
        merger.try_add(id, rec);
        proof {
            assert(as_filters(all.subrange(0, k + 1)) =~= as_filters(all.subrange(0, k as int)).push(
                as_filter(item),
            ));
            assert forall|prior: Seq<FilterItem>| #[trigger] merged_from(start, prior) implies merged_from(
                merger.state(),
                prior + as_filters(all.subrange(0, k + 1)),
            ) by {
                lemma_merged_push(before, prior + as_filters(all.subrange(0, k as int)), as_filter(item), rec);
                assert(prior + as_filters(all.subrange(0, k + 1)) =~= (prior + as_filters(
                    all.subrange(0, k as int),
                )).push(as_filter(item)));
            }
        }
        k = k + 1;
    }
    assert(all.subrange(0, all.len() as int) =~= all);
}

/// Takes one batch of hidden entries: each one that matches the target (in
/// strict mode by an exact `,`-separated author, else by the matcher's rule)
/// is offered to the merger under its ID, so the sources grow by the
/// matching entries. Says whether any was taken.
pub fn scan_hidden_batch(
    merger: &mut MangaMerger,
    items: Vec<FilterItem>,
    target_author: &str,
    strict_mode: bool,
) -> (found: bool)
    requires
        old(merger).wf(),
    ensures
        final(merger).wf(),
        found == (final(merger).ids().len() > old(merger).ids().len()),
        forall|prior: Seq<FilterItem>|
            #[trigger] merged_from(old(merger).state(), prior) ==> merged_from(
                final(merger).state(),
                prior + items@.filter(hidden_pred(target_author@, strict_mode)),
            ),
{
    let mut items = items;
    let ghost all = items@;
    let ghost start = merger.state();
    let ghost pred = hidden_pred(target_author@, strict_mode);
    let total = items.len();
    let mut k: usize = 0;
    let mut found = false;
    proof { merger.lemma_wf_ids(); }
    assert forall|prior: Seq<FilterItem>| #[trigger] merged_from(start, prior) implies merged_from(
        merger.state(),
        prior + all.subrange(0, 0).filter(pred),
    ) by {
        assert(all.subrange(0, 0).filter(pred) =~= Seq::<FilterItem>::empty());
        assert(prior + all.subrange(0, 0).filter(pred) =~= prior);
    }
    while items.len() > 0
        invariant
            merger.wf(),
            k + items@.len() == all.len(),
            all.len() == total,
            items@ == all.subrange(k as int, all.len() as int),
            pred == hidden_pred(target_author@, strict_mode),
            merger.ids().len() >= start.ids.len(),
            start == old(merger).state(),
            found == (merger.ids().len() > start.ids.len()),
            forall|prior: Seq<FilterItem>|
                #[trigger] merged_from(start, prior) ==> merged_from(
                    merger.state(),
                    prior + all.subrange(0, k as int).filter(pred),
                ),
        decreases items@.len(),
    {
        let it = items.remove(0);
        assert(it == all[k as int]);
        assert(items@ =~= all.subrange(k + 1, all.len() as int));
        let ghost item = it;
        let ghost pre = all.subrange(0, k as int);
        assert(all.subrange(0, k + 1) =~= pre.push(item));
        proof {
            pre.lemma_filter_push(item, pred);
        }
        let ghost before = merger.state();
        let is_match = if strict_mode {
            field_has_exact_token(&it.authors, target_author)
        } else {
            it.matches_author(target_author)
        };
        assert(is_match == pred(item));
        if is_match {
            let id = it.id;
            let rec = it.into_record();
            if merger.try_add(id, rec) {
                found = true;
            }
            proof {
                merger.lemma_wf_ids();
                assert forall|prior: Seq<FilterItem>| #[trigger] merged_from(start, prior) implies merged_from(
                    merger.state(),
                    prior + all.subrange(0, k + 1).filter(pred),
                ) by {
                    lemma_merged_push(before, prior + pre.filter(pred), item, rec);
                    assert(prior + all.subrange(0, k + 1).filter(pred) =~= (prior + pre.filter(pred)).push(item));
                }
            }
        }
        proof { merger.lemma_wf_ids(); }
        k = k + 1;
    }
    assert(all.subrange(0, all.len() as int) =~= all);
    found
}

/// The page of a finished search: empty with nothing after it when no
/// entry was merged, else the merged entries and whether more follow.
pub fn finish_page(merger: MangaMerger, tag_total: i64) -> (r: PageResult)
    requires
        merger.wf(),
    ensures
        r.entries@ == merger.records(),
        r.has_next_page == (merger.records().len() > 0 && next_page_spec(tag_total, merger.records().len() as int)),
{
    if merger.is_empty() {
        let r = PageResult::empty();
        assert(r.entries@ =~= merger.records());
        return r;
    }
    let n = merger.len();
    let has_next = has_next_page(tag_total, n);
    PageResult { entries: merger.finish(), has_next_page: has_next }
}

} // verus!

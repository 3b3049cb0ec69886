//! The author search as a machine that the caller drives request by request.

use vstd::prelude::*;

use crate::fuzzy::{fuzzy_terms, fuzzy_terms_of};
use crate::merger::{MangaMerger, MergeState};
use crate::models::{FilterData, FilterItem, MangaRecord, PageResult, SearchData, SearchItem};
use crate::search::{
    choose_tag_ids, chosen_ids, combine_tag_pages, finish_page, matching_items, merge_filter_items,
    merge_search_items, needs_fuzzy, next_page_spec, scan_hidden_batch, select_candidates,
    absorb_all, as_filters, copy_items, hidden_pred, merged_from, offered_ids, page_items,
    pages_total, CandidateDetail, Round, RoundState,
};
use crate::text::{trim, trim_str};

verus! {

/// Hidden-content pages that belong to one page of results.
pub const HIDDEN_PAGES_PER_RESULT_PAGE: i64 = 5;

/// Hidden-content pages fetched together in one batch.
pub const HIDDEN_PAGES_PER_BATCH: i64 = 3;

/// Where an author search stands.
#[derive(Clone, Copy, Debug, PartialEq, Eq, Structural)]
pub enum Stage {
    /// Waiting for the keyword search on the author name.
    DirectSearch,
    /// Waiting for the detail lookups of the direct candidates.
    DirectDetails,
    /// Waiting for a keyword search on a fallback term.
    FuzzySearch,
    /// Waiting for the detail lookups of the fallback candidates.
    FuzzyDetails,
    /// Waiting for the complete-works pages of the chosen tags.
    TagFetch,
    /// Waiting for a batch of hidden-content pages.
    HiddenScan,
    /// The result has been handed out.
    Done,
}

/// What the caller is asked to do next.
#[derive(Debug)]
pub enum Action {
    /// Run the keyword search (first page) on `keyword`; answer with `KeywordResults`.
    SearchKeyword { keyword: String },
    /// Look up the detail of each title, in this order; answer with `Details`,
    /// one slot per title, in the same order.
    FetchDetails { manga_ids: Vec<i64> },
    /// Fetch page `page` of the complete works of each tag; answer with
    /// `TagPages`, one slot per tag.
    FetchTagPages { tag_ids: Vec<i64>, page: i32 },
    /// Fetch `page_count` hidden-content pages from `start_page` on; answer
    /// with `HiddenBatch`, their entries in page order.
    ScanHidden { start_page: i64, page_count: i64 },
    /// The search is over: this is its result.
    Finish { result: PageResult },
}

/// What the caller brings back; a slot that failed is `None`.
#[derive(Debug)]
pub enum Event {
    KeywordResults { data: Option<SearchData> },
    Details { details: Vec<Option<CandidateDetail>> },
    TagPages { pages: Vec<Option<FilterData>> },
    HiddenBatch { items: Vec<FilterItem> },
}

pub open spec fn event_fits(stage: Stage, e: Event) -> bool {
    match e {
        Event::KeywordResults { .. } => stage == Stage::DirectSearch || stage == Stage::FuzzySearch,
        Event::Details { .. } => stage == Stage::DirectDetails || stage == Stage::FuzzyDetails,
        Event::TagPages { .. } => stage == Stage::TagFetch,
        Event::HiddenBatch { .. } => stage == Stage::HiddenScan,
    }
}

pub open spec fn in_direct(stage: Stage) -> bool {
    stage == Stage::DirectSearch || stage == Stage::DirectDetails
}

pub open spec fn in_fuzzy(stage: Stage) -> bool {
    stage == Stage::FuzzySearch || stage == Stage::FuzzyDetails
}

/// A search for the works of one author, driven step by step: the direct
/// search, the fuzzy fallback when it finds nothing, the complete works of
/// the chosen tags, the hidden-content scan when enabled, then the merge.
pub struct AuthorSearch {
    author: String,
    page: i32,
    show_hidden: bool,
    stage: Stage,
    round: Round,
    candidates: Vec<SearchItem>,
    exact_match_found: bool,
    fuzzy_terms: Vec<String>,
    fuzzy_next: usize,
    final_tag_ids: Vec<i64>,
    tag_total: i64,
    pending_tag_items: Vec<FilterItem>,
    merger: MangaMerger,
    hidden_page: i64,
    fuzzy_runs: u32,
    direct_empty: bool,
    direct_ran: bool,
    direct_ids: Ghost<Seq<i64>>,
    direct_matched: Ghost<Seq<SearchItem>>,
    sources: Ghost<Seq<FilterItem>>,
    result_records: Ghost<Seq<MangaRecord>>,
    result_ids: Ghost<Seq<i64>>,
    result_sources: Ghost<Seq<FilterItem>>,
}

impl AuthorSearch {
    /// Where the search stands.
    pub closed spec fn stage(&self) -> Stage {
        self.stage
    }

    /// The author searched for.
    pub closed spec fn author(&self) -> Seq<char> {
        self.author@
    }

    /// The result page asked for.
    pub closed spec fn page(&self) -> i32 {
        self.page
    }

    /// Whether hidden content is scanned.
    pub closed spec fn show_hidden(&self) -> bool {
        self.show_hidden
    }

    /// How many times the fuzzy fallback has been started.
    pub closed spec fn fuzzy_runs(&self) -> nat {
        self.fuzzy_runs as nat
    }

    /// Whether the direct stage ended with no tag ID to use and no matched candidate.
    pub closed spec fn direct_empty(&self) -> bool {
        self.direct_empty
    }

    /// Whether the direct stage has ended.
    pub closed spec fn direct_ran(&self) -> bool {
        self.direct_ran
    }

    /// The tag IDs that the direct stage chose.
    pub closed spec fn direct_ids(&self) -> Seq<i64> {
        self.direct_ids@
    }

    /// The candidates that the direct stage matched.
    pub closed spec fn direct_matched(&self) -> Seq<SearchItem> {
        self.direct_matched@
    }

    /// What the rounds have recorded so far.
    pub closed spec fn round_view(&self) -> RoundState {
        self.round.view()
    }

    /// Whether an exact author match was found in the direct stage.
    pub closed spec fn exact_match_found(&self) -> bool {
        self.exact_match_found
    }

    /// The candidates whose details are awaited.
    pub closed spec fn candidates(&self) -> Seq<SearchItem> {
        self.candidates@
    }

    /// How many fallback terms have been asked for.
    pub closed spec fn fuzzy_next(&self) -> nat {
        self.fuzzy_next as nat
    }

    /// The tag IDs whose complete works are fetched.
    pub closed spec fn final_tag_ids(&self) -> Seq<i64> {
        self.final_tag_ids@
    }

    /// The largest total that a tag page reported.
    pub closed spec fn tag_total(&self) -> i64 {
        self.tag_total
    }

    /// The first hidden-content page of the batch asked for last.
    pub closed spec fn hidden_page(&self) -> i64 {
        self.hidden_page
    }

    /// The hidden entries merged so far, in order.
    pub closed spec fn sources(&self) -> Seq<FilterItem> {
        self.sources@
    }

    /// The tag results that wait for the hidden-content scan to end.
    pub closed spec fn pending_tag_items(&self) -> Seq<FilterItem> {
        self.pending_tag_items@
    }

    /// The entries handed out when the search finished.
    pub closed spec fn result_records(&self) -> Seq<MangaRecord> {
        self.result_records@
    }

    /// The IDs of the entries handed out, in order.
    pub closed spec fn result_ids(&self) -> Seq<i64> {
        self.result_ids@
    }

    /// Everything that was merged into the result, in merge order.
    pub closed spec fn result_sources(&self) -> Seq<FilterItem> {
        self.result_sources@
    }

    /// The candidates merged after the tag results: the strict ones when an
    /// exact author match was found, else every matched one.
    pub open spec fn merge_extra(&self) -> Seq<SearchItem> {
        if self.exact_match_found() {
            self.round_view().strict_manga
        } else {
            self.round_view().matched
        }
    }

    /// What holds at every stage.
    closed spec fn base(&self) -> bool {
        &&& self.merger.wf()
        &&& merged_from(self.merger.state(), self.sources@)
        &&& self.fuzzy_runs <= 1
        &&& (self.fuzzy_runs == 1) == self.direct_empty
        &&& self.fuzzy_next <= self.fuzzy_terms@.len()
        &&& (self.direct_ran ==> self.direct_empty == (self.direct_ids@.len() == 0
            && self.direct_matched@.len() == 0))
        &&& (!self.direct_ran ==> self.fuzzy_runs == 0)
        &&& self.fuzzy_terms@.len() == fuzzy_terms_of(self.author@).len()
        &&& (forall|i: int|
            0 <= i < self.fuzzy_terms@.len() ==> #[trigger] self.fuzzy_terms@[i]@ == fuzzy_terms_of(
                self.author@,
            )[i])
        &&& (self.stage == Stage::Done ==> merged_from(
            MergeState { ids: self.result_ids@, records: self.result_records@ },
            self.result_sources@,
        ))
    }

    /// The fallback runs only after the direct stage, and only while it is the
    /// stage's business; nothing is merged before the hidden-content scan.
    pub closed spec fn wf(&self) -> bool {
        &&& self.base()
        &&& (in_direct(self.stage) ==> self.fuzzy_runs == 0 && !self.direct_ran && self.fuzzy_next
            == 0)
        &&& (in_fuzzy(self.stage) ==> self.fuzzy_runs == 1 && self.fuzzy_next >= 1
            && self.direct_ran)
        &&& (self.stage == Stage::HiddenScan ==> self.show_hidden && self.direct_ran)
        &&& (self.stage == Stage::TagFetch ==> self.direct_ran)
        &&& (self.stage != Stage::HiddenScan && self.stage != Stage::Done ==> self.sources@.len()
            == 0)
    }

    /// What `action` says about the state it leaves.
    pub open spec fn fits(&self, a: Action) -> bool {
        match a {
            Action::SearchKeyword { keyword } => (self.stage() == Stage::DirectSearch && keyword@
                == self.author()) || (self.stage() == Stage::FuzzySearch && 1 <= self.fuzzy_next()
                <= fuzzy_terms_of(self.author()).len() && keyword@ == fuzzy_terms_of(
                self.author(),
            )[self.fuzzy_next() - 1]),
            Action::FetchDetails { manga_ids } => (self.stage() == Stage::DirectDetails
                || self.stage() == Stage::FuzzyDetails) && self.candidates().len() > 0
                && manga_ids@.len() == self.candidates().len() && (forall|i: int|
                0 <= i < manga_ids@.len() ==> #[trigger] manga_ids@[i] == self.candidates()[i].id),
            Action::FetchTagPages { tag_ids, page } => self.stage() == Stage::TagFetch && tag_ids@
                == self.final_tag_ids() && tag_ids@.len() > 0 && page == self.page(),
            Action::ScanHidden { start_page, page_count } => self.stage() == Stage::HiddenScan
                && start_page == self.hidden_page() && page_count == HIDDEN_PAGES_PER_BATCH,
            Action::Finish { result } => self.stage() == Stage::Done && result.entries@
                == self.result_records() && result.has_next_page == (self.result_records().len()
                > 0 && next_page_spec(self.tag_total(), self.result_records().len() as int))
                && merged_from(
                MergeState { ids: self.result_ids(), records: self.result_records() },
                self.result_sources(),
            ),
        }
    }

    /// Starts a search for the works of `author`, for result page `page`,
    /// scanning hidden content when `show_hidden` is set. An author that is
    /// empty or all white space gives at once an empty page and asks nothing.
    pub fn new(author: &str, page: i32, show_hidden: bool) -> (r: (AuthorSearch, Action))
        ensures
            r.0.wf(),
            r.0.fits(r.1),
            r.0.author() == author@,
            r.0.page() == page,
            r.0.show_hidden() == show_hidden,
            r.0.fuzzy_runs() == 0,
            trim(author@).len() == 0 ==> r.0.stage() == Stage::Done && r.0.result_sources().len()
                == 0 && r.0.tag_total() == 0,
            trim(author@).len() > 0 ==> {
                &&& r.0.stage() == Stage::DirectSearch
                &&& r.0.round_view().seen_authors.len() == 0
                &&& r.0.round_view().strict_ids.len() == 0
                &&& r.0.round_view().partial_ids.len() == 0
                &&& r.0.round_view().matched.len() == 0
                &&& r.0.round_view().strict_manga.len() == 0
                &&& r.0.fuzzy_next() == 0
                &&& !r.0.direct_ran()
                &&& !r.0.exact_match_found()
            },
    {
        let trimmed = trim_str(author);
        let terms = fuzzy_terms(author);
        let mut s = AuthorSearch {
            author: String::from_str(author),
            page,
            show_hidden,
            stage: Stage::DirectSearch,
            round: Round::new(),
            candidates: Vec::new(),
            exact_match_found: false,
            fuzzy_terms: terms,
            fuzzy_next: 0,
            final_tag_ids: Vec::new(),
            tag_total: 0,
            pending_tag_items: Vec::new(),
            merger: MangaMerger::new(),
            hidden_page: 0,
            fuzzy_runs: 0,
            direct_empty: false,
            direct_ran: false,
            direct_ids: Ghost(Seq::empty()),
            direct_matched: Ghost(Seq::empty()),
            sources: Ghost(Seq::empty()),
            result_records: Ghost(Seq::empty()),
            result_ids: Ghost(Seq::empty()),
            result_sources: Ghost(Seq::empty()),
        };
        assert(s.merger.state().ids =~= offered_ids(Seq::empty(), Seq::<FilterItem>::empty()));
        if trimmed.unicode_len() == 0 {
            s.stage = Stage::Done;
            let result = PageResult::empty();
            assert(result.entries@ =~= s.result_records@);
            return (s, Action::Finish { result });
        }
        let keyword = String::from_str(author);
        (s, Action::SearchKeyword { keyword })
    }

    /// Whether `event` is the answer that the current stage waits for.
    pub fn expects(&self, event: &Event) -> (r: bool)
        ensures
            r == event_fits(self.stage(), *event),
    {
        match event {
            Event::KeywordResults { .. } => self.stage == Stage::DirectSearch || self.stage
                == Stage::FuzzySearch,
            Event::Details { .. } => self.stage == Stage::DirectDetails || self.stage
                == Stage::FuzzyDetails,
            Event::TagPages { .. } => self.stage == Stage::TagFetch,
            Event::HiddenBatch { .. } => self.stage == Stage::HiddenScan,
        }
    }

    /// Takes the answer to the last action and says what to do next.
    pub fn step(&mut self, event: Event) -> (a: Action)
        requires
            old(self).wf(),
            event_fits(old(self).stage(), event),
        ensures
            final(self).wf(),
            final(self).fits(a),
            final(self).author() == old(self).author(),
            final(self).page() == old(self).page(),
            final(self).show_hidden() == old(self).show_hidden(),
            final(self).fuzzy_runs() >= old(self).fuzzy_runs(),
            !in_direct(old(self).stage()) ==> final(self).fuzzy_runs() == old(self).fuzzy_runs()
                && final(self).direct_empty() == old(self).direct_empty() && !in_direct(
                final(self).stage(),
            ),
            old(self).direct_ran() ==> final(self).direct_ran()
                && final(self).direct_ids() == old(self).direct_ids()
                && final(self).direct_matched() == old(self).direct_matched(),
            match event {
                Event::KeywordResults { data } => {
                    let list = match data {
                        Some(d) => d.list@,
                        None => Seq::<SearchItem>::empty(),
                    };
                    let m = matching_items(list, old(self).author());
                    if m.len() > 0 {
                        &&& final(self).stage() == (if old(self).stage() == Stage::DirectSearch {
                            Stage::DirectDetails
                        } else {
                            Stage::FuzzyDetails
                        })
                        &&& final(self).candidates() == m
                        &&& final(self).round_view() == old(self).round_view()
                        &&& final(self).fuzzy_next() == old(self).fuzzy_next()
                        &&& final(self).fuzzy_runs() == old(self).fuzzy_runs()
                        &&& final(self).exact_match_found() == old(self).exact_match_found()
                        &&& final(self).direct_ran() == old(self).direct_ran()
                    } else {
                        round_ended(*old(self), *final(self), old(self).round_view())
                    }
                },
                Event::Details { details } => round_ended(
                    *old(self),
                    *final(self),
                    absorb_all(
                        old(self).round_view(),
                        old(self).candidates(),
                        details@,
                        old(self).author(),
                    ),
                ),
                Event::TagPages { pages } => {
                    &&& final(self).tag_total() == pages_total(pages@)
                    &&& final(self).round_view() == old(self).round_view()
                    &&& final(self).exact_match_found() == old(self).exact_match_found()
                    &&& tag_results_in(*final(self), page_items(pages@))
                },
                Event::HiddenBatch { items } => {
                    let ns = old(self).sources() + items@.filter(
                        hidden_pred(old(self).author(), old(self).exact_match_found()),
                    );
                    let found = offered_ids(Seq::empty(), ns).len() > offered_ids(
                        Seq::empty(),
                        old(self).sources(),
                    ).len();
                    &&& final(self).round_view() == old(self).round_view()
                    &&& final(self).exact_match_found() == old(self).exact_match_found()
                    &&& final(self).tag_total() == old(self).tag_total()
                    &&& if found || items@.len() == 0 || old(self).hidden_page() > i64::MAX
                        - HIDDEN_PAGES_PER_BATCH {
                        &&& final(self).stage() == Stage::Done
                        &&& final(self).result_sources() == ns + old(self).pending_tag_items()
                            + as_filters(old(self).merge_extra())
                    } else {
                        &&& final(self).stage() == Stage::HiddenScan
                        &&& final(self).hidden_page() == old(self).hidden_page()
                            + HIDDEN_PAGES_PER_BATCH
                        &&& final(self).sources() == ns
                        &&& final(self).pending_tag_items() == old(self).pending_tag_items()
                    }
                },
            },
    {
        match event {
            Event::KeywordResults { data } => {
                let list = match data {
                    Some(d) => d.list,
                    None => Vec::new(),
                };
                let candidates = select_candidates(&list, self.author.as_str());
                if candidates.len() == 0 {
                    return self.end_round();
                }
                let mut ids: Vec<i64> = Vec::new();
                let mut i: usize = 0;
                while i < candidates.len()
                    invariant
                        i <= candidates@.len(),
                        ids@.len() == i,
                        forall|k: int| 0 <= k < i ==> #[trigger] ids@[k] == candidates@[k].id,
                    decreases candidates@.len() - i,
                {
                    ids.push(candidates[i].id);
                    i = i + 1;
                }
                self.candidates = candidates;
                self.stage = if self.stage == Stage::DirectSearch {
                    Stage::DirectDetails
                } else {
                    Stage::FuzzyDetails
                };
                Action::FetchDetails { manga_ids: ids }
            },
            Event::Details { details } => {
                let mut candidates: Vec<SearchItem> = Vec::new();
                std::mem::swap(&mut candidates, &mut self.candidates);
                self.round.absorb_details(&candidates, &details, self.author.as_str());
                self.end_round()
            },
            Event::TagPages { pages } => {
                let ghost ps = pages@;
                let (items, total) = combine_tag_pages(pages);
                self.tag_total = total;
                self.go_hidden(items)
            },
            Event::HiddenBatch { items } => {
                let ghost src = self.sources@;
                let ghost batch = items@;
                let ghost old_state = self.merger.state();
                let empty_batch = items.len() == 0;
                let found = scan_hidden_batch(
                    &mut self.merger,
                    items,
                    self.author.as_str(),
                    self.exact_match_found,
                );
                let ghost ns = src + batch.filter(hidden_pred(self.author@, self.exact_match_found));
                assert(merged_from(old_state, src));
                self.sources = Ghost(ns);
                if found || empty_batch || self.hidden_page > i64::MAX - HIDDEN_PAGES_PER_BATCH {
                    let mut tag_items: Vec<FilterItem> = Vec::new();
                    std::mem::swap(&mut tag_items, &mut self.pending_tag_items);
                    return self.finish(tag_items);
                }
                self.hidden_page = self.hidden_page + HIDDEN_PAGES_PER_BATCH;
                Action::ScanHidden {
                    start_page: self.hidden_page,
                    page_count: HIDDEN_PAGES_PER_BATCH,
                }
            },
        }
    }

    /// Ends a round of the direct stage or of the fallback, and moves on.
    fn end_round(&mut self) -> (a: Action)
        requires
            old(self).wf(),
            in_direct(old(self).stage()) || in_fuzzy(old(self).stage()),
        ensures
            final(self).wf(),
            final(self).fits(a),
            final(self).author() == old(self).author(),
            final(self).page() == old(self).page(),
            final(self).show_hidden() == old(self).show_hidden(),
            !in_direct(final(self).stage()),
            in_fuzzy(old(self).stage()) ==> final(self).fuzzy_runs() == old(self).fuzzy_runs()
                && final(self).direct_empty() == old(self).direct_empty()
                && final(self).direct_ran() == old(self).direct_ran()
                && final(self).direct_ids() == old(self).direct_ids()
                && final(self).direct_matched() == old(self).direct_matched(),
            round_ended(*old(self), *final(self), old(self).round_view()),
    {
        if self.stage == Stage::DirectSearch || self.stage == Stage::DirectDetails {
            let direct_ids = choose_tag_ids(&self.round.strict_ids, &self.round.partial_ids);
            self.exact_match_found = self.round.strict_ids.len() > 0;
            self.direct_ran = true;
            self.direct_ids = Ghost(direct_ids@);
            self.direct_matched = Ghost(self.round.matched@);
            if needs_fuzzy(&direct_ids, &self.round.matched) {
                self.fuzzy_runs = 1;
                self.direct_empty = true;
                return self.next_fuzzy();
            }
            self.final_tag_ids = direct_ids;
            self.stage = Stage::TagFetch;
            return self.go_tags();
        }
        if self.round.strict_ids.len() > 0 || self.round.partial_ids.len() > 0 {
            self.final_tag_ids = choose_tag_ids(&self.round.strict_ids, &self.round.partial_ids);
            self.stage = Stage::TagFetch;
            return self.go_tags();
        }
        self.next_fuzzy()
    }

    /// Starts the next fallback term, or moves on when none is left.
    fn next_fuzzy(&mut self) -> (a: Action)
        requires
            old(self).base(),
            old(self).fuzzy_runs == 1,
            old(self).direct_ran,
            old(self).sources@.len() == 0,
        ensures
            final(self).wf(),
            final(self).fits(a),
            final(self).author() == old(self).author(),
            final(self).page() == old(self).page(),
            final(self).show_hidden() == old(self).show_hidden(),
            !in_direct(final(self).stage()),
            final(self).fuzzy_runs() == old(self).fuzzy_runs(),
            final(self).direct_empty() == old(self).direct_empty(),
            final(self).direct_ran() == old(self).direct_ran(),
            final(self).direct_ids() == old(self).direct_ids(),
            final(self).direct_matched() == old(self).direct_matched(),
            final(self).round_view() == old(self).round_view(),
            final(self).exact_match_found() == old(self).exact_match_found(),
            next_term(*final(self), old(self).fuzzy_next()),
    {
        if self.fuzzy_next < self.fuzzy_terms.len() {
            let keyword = self.fuzzy_terms[self.fuzzy_next].clone();
            assert(keyword@ == fuzzy_terms_of(self.author@)[self.fuzzy_next as int]);
            self.fuzzy_next = self.fuzzy_next + 1;
            self.stage = Stage::FuzzySearch;
            return Action::SearchKeyword { keyword };
        }
        self.final_tag_ids = Vec::new();
        self.stage = Stage::TagFetch;
        let a = self.go_tags();
        assert(self.final_tag_ids@ =~= Seq::<i64>::empty());
        a
    }

    /// Asks for the complete works of the chosen tags, or moves on when there are none.
    fn go_tags(&mut self) -> (a: Action)
        requires
            old(self).base(),
            old(self).direct_ran,
            old(self).sources@.len() == 0,
        ensures
            final(self).wf(),
            final(self).fits(a),
            final(self).author() == old(self).author(),
            final(self).page() == old(self).page(),
            final(self).show_hidden() == old(self).show_hidden(),
            !in_direct(final(self).stage()),
            !in_fuzzy(final(self).stage()),
            final(self).fuzzy_runs() == old(self).fuzzy_runs(),
            final(self).direct_empty() == old(self).direct_empty(),
            final(self).direct_ran() == old(self).direct_ran(),
            final(self).direct_ids() == old(self).direct_ids(),
            final(self).direct_matched() == old(self).direct_matched(),
            final(self).round_view() == old(self).round_view(),
            final(self).exact_match_found() == old(self).exact_match_found(),
            tags_chosen(*final(self), old(self).final_tag_ids()),
    {
        if self.final_tag_ids.len() == 0 {
            self.tag_total = 0;
            return self.go_hidden(Vec::new());
        }
        self.stage = Stage::TagFetch;
        let tag_ids = crate::search::copy_ids(&self.final_tag_ids);
        Action::FetchTagPages { tag_ids, page: self.page }
    }

    /// Starts the hidden-content scan when it is enabled, else merges.
    fn go_hidden(&mut self, tag_items: Vec<FilterItem>) -> (a: Action)
        requires
            old(self).base(),
            old(self).direct_ran,
            old(self).sources@.len() == 0,
        ensures
            final(self).wf(),
            final(self).fits(a),
            final(self).author() == old(self).author(),
            final(self).page() == old(self).page(),
            final(self).show_hidden() == old(self).show_hidden(),
            !in_direct(final(self).stage()),
            !in_fuzzy(final(self).stage()),
            final(self).fuzzy_runs() == old(self).fuzzy_runs(),
            final(self).direct_empty() == old(self).direct_empty(),
            final(self).direct_ran() == old(self).direct_ran(),
            final(self).direct_ids() == old(self).direct_ids(),
            final(self).direct_matched() == old(self).direct_matched(),
            final(self).round_view() == old(self).round_view(),
            final(self).exact_match_found() == old(self).exact_match_found(),
            final(self).final_tag_ids() == old(self).final_tag_ids(),
            final(self).tag_total() == old(self).tag_total(),
            tag_results_in(*final(self), tag_items@),
    {
        if self.show_hidden {
            self.pending_tag_items = tag_items;
            self.hidden_page = (self.page as i64 - 1) * HIDDEN_PAGES_PER_RESULT_PAGE + 1;
            self.stage = Stage::HiddenScan;
            assert(self.sources@ =~= Seq::<FilterItem>::empty());
            return Action::ScanHidden {
                start_page: self.hidden_page,
                page_count: HIDDEN_PAGES_PER_BATCH,
            };
        }
        let ghost ti = tag_items@;
        let a = self.finish(tag_items);
        assert(Seq::<FilterItem>::empty() + ti =~= ti);
        assert(old(self).sources@ =~= Seq::<FilterItem>::empty());
        a
    }

    /// Merges (hidden finds first, then the tag results, then the strict
    /// candidates in strict mode or every matched candidate otherwise) and
    /// hands out the page.
    fn finish(&mut self, tag_items: Vec<FilterItem>) -> (a: Action)
        requires
            old(self).base(),
        ensures
            final(self).wf(),
            final(self).fits(a),
            final(self).author() == old(self).author(),
            final(self).page() == old(self).page(),
            final(self).show_hidden() == old(self).show_hidden(),
            final(self).stage() == Stage::Done,
            final(self).fuzzy_runs() == old(self).fuzzy_runs(),
            final(self).direct_empty() == old(self).direct_empty(),
            final(self).direct_ran() == old(self).direct_ran(),
            final(self).direct_ids() == old(self).direct_ids(),
            final(self).direct_matched() == old(self).direct_matched(),
            final(self).round_view() == old(self).round_view(),
            final(self).exact_match_found() == old(self).exact_match_found(),
            final(self).final_tag_ids() == old(self).final_tag_ids(),
            final(self).tag_total() == old(self).tag_total(),
            final(self).result_sources() == old(self).sources() + tag_items@ + as_filters(
                old(self).merge_extra(),
            ),
    {
        let ghost src0 = self.sources@;
        let ghost ti = tag_items@;
        let ghost extra_s = self.merge_extra();
        let ghost st0 = self.merger.state();
        merge_filter_items(&mut self.merger, tag_items);
        assert(merged_from(st0, src0));
        let ghost st1 = self.merger.state();
        let extra = if self.exact_match_found {
            copy_items(&self.round.strict_manga)
        } else {
            copy_items(&self.round.matched)
        };
        merge_search_items(&mut self.merger, extra);
        assert(merged_from(st1, src0 + ti));
        let ghost rs = src0 + ti + as_filters(extra_s);
        let mut merger = MangaMerger::new();
        std::mem::swap(&mut merger, &mut self.merger);
        self.sources = Ghost(Seq::empty());
        assert(self.merger.state().ids =~= offered_ids(Seq::empty(), Seq::<FilterItem>::empty()));
        self.result_records = Ghost(merger.records());
        self.result_ids = Ghost(merger.ids());
        self.result_sources = Ghost(rs);
        let result = finish_page(merger, self.tag_total);
        self.stage = Stage::Done;
        Action::Finish { result }
    }
}

/// After the tag results are in: the hidden-content scan starts at the
/// first hidden page of the result page, with nothing merged yet; or,
/// without it, the search ends with the tag results, then the candidates.
pub open spec fn tag_results_in(f: AuthorSearch, tag_items: Seq<FilterItem>) -> bool {
    if f.show_hidden() {
        &&& f.stage() == Stage::HiddenScan
        &&& f.hidden_page() == (f.page() - 1) * HIDDEN_PAGES_PER_RESULT_PAGE + 1
        &&& f.pending_tag_items() == tag_items
        &&& f.sources() == Seq::<FilterItem>::empty()
    } else {
        &&& f.stage() == Stage::Done
        &&& f.result_sources() == tag_items + as_filters(f.merge_extra())
    }
}

/// After the tag IDs are chosen: their pages are asked for, or, with none,
/// the search goes on with no tag results.
pub open spec fn tags_chosen(f: AuthorSearch, ids: Seq<i64>) -> bool {
    &&& f.final_tag_ids() == ids
    &&& if ids.len() > 0 {
        f.stage() == Stage::TagFetch
    } else {
        f.tag_total() == 0 && tag_results_in(f, Seq::<FilterItem>::empty())
    }
}

/// The fallback term at position `n` is asked for, or, with none left, the
/// search goes on with no tag IDs.
pub open spec fn next_term(f: AuthorSearch, n: nat) -> bool {
    if n < fuzzy_terms_of(f.author()).len() {
        f.stage() == Stage::FuzzySearch && f.fuzzy_next() == n + 1
    } else {
        tags_chosen(f, Seq::<i64>::empty())
    }
}

/// A round has ended with `r` recorded. After the direct round: the strict
/// tag IDs are chosen if there are any, else the partial ones; with neither
/// and no matched candidate, the fallback starts with its first term. After
/// a fallback round: tag IDs found end the fallback, else the next term is
/// asked for.
pub open spec fn round_ended(o: AuthorSearch, f: AuthorSearch, r: RoundState) -> bool {
    &&& f.round_view() == r
    &&& if in_direct(o.stage()) {
        let ids = chosen_ids(r.strict_ids, r.partial_ids);
        &&& f.direct_ran()
        &&& f.direct_ids() == ids
        &&& f.direct_matched() == r.matched
        &&& f.exact_match_found() == (r.strict_ids.len() > 0)
        &&& if ids.len() == 0 && r.matched.len() == 0 {
            f.fuzzy_runs() == 1 && next_term(f, 0)
        } else {
            f.fuzzy_runs() == 0 && tags_chosen(f, ids)
        }
    } else {
        &&& f.exact_match_found() == o.exact_match_found()
        &&& if r.strict_ids.len() > 0 || r.partial_ids.len() > 0 {
            tags_chosen(f, chosen_ids(r.strict_ids, r.partial_ids))
        } else {
            next_term(f, o.fuzzy_next())
        }
    }
}

/// The fuzzy fallback is started at most once, never before the direct
/// stage has ended, and exactly when that stage chose no tag ID and matched
/// no candidate.
pub proof fn lemma_fuzzy_once(s: AuthorSearch)
    requires
        s.wf(),
    ensures
        s.fuzzy_runs() <= 1,
        !s.direct_ran() ==> s.fuzzy_runs() == 0,
        s.direct_ran() ==> ((s.fuzzy_runs() == 1) == (s.direct_ids().len() == 0
            && s.direct_matched().len() == 0)),
        in_fuzzy(s.stage()) ==> s.direct_ran() && s.direct_ids().len() == 0
            && s.direct_matched().len() == 0,
{
}

} // verus!

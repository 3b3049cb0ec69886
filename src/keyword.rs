//! Keyword search: IDs named directly, the token-refresh policy, and merging
//! hidden entries into the results.

use vstd::prelude::*;

use crate::idset::{id_set_contents, IdSet};
use crate::models::{
    all_digits, is_digit, ApiResponse, FilterData, FilterItem, MangaRecord, PageResult, SearchData,
    SearchItem,
};
use crate::search::{filter_record, search_record};
use crate::text::{chars_of, contains_chars, contains_seq, trim, trim_bounds};

verus! {

/// The error number with which the site says that the token is no longer valid.
pub const AUTH_ERRNO: i64 = 99;

/// The position of the last `c` in `s`, if any.
pub open spec fn last_index(s: Seq<char>, c: char) -> Option<int>
    decreases s.len(),
{
    if s.len() == 0 {
        None
    } else if s.last() == c {
        Some(s.len() - 1)
    } else {
        last_index(s.drop_last(), c)
    }
}

/// How many decimal digits `s` starts with.
pub open spec fn digit_prefix_len(s: Seq<char>) -> nat
    decreases s.len(),
{
    if s.len() > 0 && is_digit(s[0]) {
        1 + digit_prefix_len(s.drop_first())
    } else {
        0
    }
}

/// The numeric ID that a search keyword names directly: the keyword itself
/// (trimmed) when it is all digits, or, in a link to the site, the digits
/// that follow its last `/`.
pub open spec fn manga_id_of(keyword: Seq<char>) -> Option<Seq<char>> {
    let t = trim(keyword);
    if t.len() > 0 && all_digits(t) {
        Some(t)
    } else if contains_seq(t, "zaimanhua.com"@) {
        match last_index(t, '/') {
            Some(p) => {
                let after = t.subrange(p + 1, t.len() as int);
                let d = after.subrange(0, digit_prefix_len(after) as int);
                if d.len() > 0 {
                    Some(d)
                } else {
                    None
                }
            },
            None => None,
        }
    } else {
        None
    }
}

/// The position of the last `c` in `s`.
pub fn find_last_char(s: &Vec<char>, c: char) -> (r: Option<usize>)
    ensures
        r.is_some() == last_index(s@, c).is_some(),
        r.is_some() ==> last_index(s@, c) == Some(r.unwrap() as int),
        r.is_some() ==> r.unwrap() < s@.len(),
{
    let mut i: usize = s.len();
    assert(s@.subrange(0, i as int) =~= s@);
    while i > 0
        invariant
            i <= s@.len(),
            last_index(s@, c) == last_index(s@.subrange(0, i as int), c),
        decreases i,
    {
        assert(s@.subrange(0, i as int).drop_last() =~= s@.subrange(0, i - 1));
        if s[i - 1] == c {
            return Some(i - 1);
        }
        i = i - 1;
    }
    None
}

/// How many decimal digits `s` has from `from` on, before anything else.
fn digits_from(s: &Vec<char>, from: usize) -> (r: usize)
    requires
        from <= s@.len(),
    ensures
        from + r <= s@.len(),
        r == digit_prefix_len(s@.subrange(from as int, s@.len() as int)),
{
    let n = s.len();
    let mut i = from;
    while i < n && '0' <= s[i] && s[i] <= '9'
        invariant
            from <= i <= n == s@.len(),
            digit_prefix_len(s@.subrange(from as int, n as int)) == (i - from) + digit_prefix_len(
                s@.subrange(i as int, n as int),
            ),
        decreases n - i,
    {
        assert(s@.subrange(i as int, n as int).drop_first() =~= s@.subrange(i + 1, n as int));
        i = i + 1;
    }
    i - from
}

/// Whether every character of `s` from `a` up to `b` is a decimal digit.
pub fn all_digits_in(s: &Vec<char>, a: usize, b: usize) -> (r: bool)
    requires
        a <= b <= s@.len(),
    ensures
        r == all_digits(s@.subrange(a as int, b as int)),
{
    let mut i = a;
    while i < b
        invariant
            a <= i <= b <= s@.len(),
            all_digits(s@.subrange(a as int, i as int)),
        decreases b - i,
    {
        if !('0' <= s[i] && s[i] <= '9') {
            assert(s@.subrange(a as int, b as int)[i - a] == s@[i as int]);
            return false;
        }
        assert forall|k: int| 0 <= k < i + 1 - a implies is_digit(
            #[trigger] s@.subrange(a as int, i + 1)[k],
        ) by {
            if k < i - a {
                assert(s@.subrange(a as int, i + 1)[k] == s@.subrange(a as int, i as int)[k]);
            }
        }
        i = i + 1;
    }
    true
}

/// The numeric ID that a search keyword names directly, if any: the keyword
/// (trimmed) when it is all digits, or the digits after the last `/` of a
/// link to the site.
pub fn parse_manga_id(keyword: &str) -> (r: Option<String>)
    ensures
        r.is_some() == manga_id_of(keyword@).is_some(),
        r.is_some() ==> r.unwrap()@ == manga_id_of(keyword@).unwrap(),
{
    let cs = chars_of(keyword);
    let (a, b) = trim_bounds(&cs);
    let ghost t = trim(keyword@);
    if a < b && all_digits_in(&cs, a, b) {
        return Some(String::from_str(keyword.substring_char(a, b)));
    }
    let t_chars = crate::text::slice_chars(&cs, a, b);
    let site = chars_of("zaimanhua.com");
    if !contains_chars(&t_chars, &site) {
        return None;
    }
    match find_last_char(&t_chars, '/') {
        None => None,
        Some(p) => {
            let k = digits_from(&t_chars, p + 1);
            proof {
                let after = t.subrange(p + 1, t.len() as int);
                assert(t_chars@.subrange(p + 1, t_chars@.len() as int) == after);
            }
            if k == 0 {
                return None;
            }
            let start = a + p + 1;
            let piece = keyword.substring_char(start, start + k);
            proof {
                let after = t.subrange(p + 1, t.len() as int);
                assert(piece@ =~= after.subrange(0, k as int));
            }
            Some(String::from_str(piece))
        },
    }
}

/// Whether an error number is the site's "token no longer valid".
pub fn is_auth_error(errno: Option<i64>) -> (r: bool)
    ensures
        r == (errno == Some(AUTH_ERRNO)),
{
    match errno {
        Some(e) => e == AUTH_ERRNO,
        None => false,
    }
}

/// What to do after an attempt of the main keyword request.
#[derive(Clone, Copy, Debug, PartialEq, Eq, Structural)]
pub enum RetryStep {
    /// Keep what the attempt brought.
    Commit,
    /// Refresh the token, then send the whole batch again.
    Refresh,
    /// Stop with nothing.
    GiveUp,
}

/// The token-refresh policy of the keyword search: at most one refresh, and
/// one more attempt after it.
pub struct TokenRetry {
    refreshed: bool,
}

impl TokenRetry {
    /// Whether the one refresh has been used.
    pub closed spec fn refreshed(&self) -> bool {
        self.refreshed
    }

    pub fn new() -> (r: TokenRetry)
        ensures
            !r.refreshed(),
    {
        TokenRetry { refreshed: false }
    }

    /// After an attempt: keep it unless the token was refused; refresh once;
    /// after the refresh, a refused token ends the search.
    pub fn after_attempt(&self, auth_error: bool) -> (r: RetryStep)
        ensures
            !auth_error ==> r == RetryStep::Commit,
            auth_error && !self.refreshed() ==> r == RetryStep::Refresh,
            auth_error && self.refreshed() ==> r == RetryStep::GiveUp,
    {
        if !auth_error {
            RetryStep::Commit
        } else if !self.refreshed {
            RetryStep::Refresh
        } else {
            RetryStep::GiveUp
        }
    }

    /// After the refresh: with a new token, try again; without one, stop.
    pub fn after_refresh(&mut self, got_token: bool) -> (r: bool)
        requires
            !old(self).refreshed(),
        ensures
            final(self).refreshed(),
            r == got_token,
    {
        self.refreshed = true;
        got_token
    }
}

/// What `str::to_lowercase` makes of a text.
pub uninterp spec fn lower_of(s: Seq<char>) -> Seq<char>;

/// Relies on `str::to_lowercase`: the result depends on the text alone.
#[verifier::external_body]
fn to_lower(s: &str) -> (r: String)
    ensures
        r@ == lower_of(s@),
{
    s.to_lowercase()
}

/// The author field of a hidden entry, the empty text when it has none.
pub open spec fn hidden_authors(item: FilterItem) -> Seq<char> {
    match item.authors {
        Some(a) => a@,
        None => Seq::<char>::empty(),
    }
}

/// Whether a hidden entry answers a keyword, all three already lower-cased:
/// its name or its author field contains the keyword.
pub fn hidden_hit_matches(name_lower: &str, authors_lower: &str, keyword_lower: &str) -> (r: bool)
    ensures
        r == (contains_seq(name_lower@, keyword_lower@) || contains_seq(
            authors_lower@,
            keyword_lower@,
        )),
{
    let n = chars_of(name_lower);
    let a = chars_of(authors_lower);
    let k = chars_of(keyword_lower);
    contains_chars(&n, &k) || contains_chars(&a, &k)
}

/// Whether a hidden entry answers the keyword, case aside.
pub open spec fn hidden_answers(item: FilterItem, keyword: Seq<char>) -> bool {
    contains_seq(lower_of(item.name@), lower_of(keyword)) || contains_seq(
        lower_of(hidden_authors(item)),
        lower_of(keyword),
    )
}

/// The hidden entries kept: not a search hit already, and answering the keyword.
pub open spec fn kept_hidden(
    hits: Seq<SearchItem>,
    hidden: Seq<FilterItem>,
    keyword: Seq<char>,
) -> Seq<FilterItem> {
    hidden.filter(kept_by(hits, keyword))
}

/// The test that `kept_hidden` applies to each hidden entry.
pub open spec fn kept_by(hits: Seq<SearchItem>, keyword: Seq<char>) -> spec_fn(FilterItem) -> bool {
    |it: FilterItem|
        !(exists|j: int| 0 <= j < hits.len() && hits[j].id == it.id) && hidden_answers(it, keyword)
}

/// The result of a keyword search: the search hits, then the hidden entries
/// that are not among them and whose name or author field contains the
/// keyword, case aside. More pages follow while this page is not empty.
pub fn merge_keyword_results(
    hits: Vec<SearchItem>,
    hidden: Vec<FilterItem>,
    keyword: &str,
) -> (r: PageResult)
    ensures
        r.entries@.len() == hits@.len() + kept_hidden(hits@, hidden@, keyword@).len(),
        forall|i: int| 0 <= i < hits@.len() ==> search_record(#[trigger] r.entries@[i], hits@[i]),
        forall|i: int|
            0 <= i < kept_hidden(hits@, hidden@, keyword@).len() ==> filter_record(
                #[trigger] r.entries@[hits@.len() + i],
                kept_hidden(hits@, hidden@, keyword@)[i],
            ),
        r.has_next_page == (r.entries@.len() > 0),
{
    let keyword_lower = to_lower(keyword);
    let mut existing = IdSet::new();
    let mut entries: Vec<MangaRecord> = Vec::new();
    let mut hits = hits;
    let ghost all_hits = hits@;
    let n_hits = hits.len();
    let mut k: usize = 0;
    while hits.len() > 0
        invariant
            k + hits@.len() == all_hits.len(),
            all_hits.len() == n_hits,
            hits@ == all_hits.subrange(k as int, all_hits.len() as int),
            entries@.len() == k,
            forall|i: int| 0 <= i < k ==> search_record(#[trigger] entries@[i], all_hits[i]),
            forall|x: i64|
                id_set_contents(existing).contains(x) <==> exists|j: int|
                    0 <= j < k && all_hits[j].id == x,
        decreases hits@.len(),
    {
        let it = hits.remove(0);
        assert(it == all_hits[k as int]);
        assert(hits@ =~= all_hits.subrange(k + 1, all_hits.len() as int));
        let ghost old_set = id_set_contents(existing);
        existing.insert(it.id);
        assert forall|x: i64|
            id_set_contents(existing).contains(x) <==> exists|j: int|
                0 <= j < k + 1 && all_hits[j].id == x by {
            if x == it.id {
                assert(all_hits[k as int].id == x);
            }
            if exists|j: int| 0 <= j < k + 1 && all_hits[j].id == x {
                let j = choose|j: int| 0 <= j < k + 1 && all_hits[j].id == x;
                if j < k {
                    assert(old_set.contains(x));
                }
            }
        }
        entries.push(it.into_record());
        k = k + 1;
    }
    let mut hidden = hidden;
    let ghost all_hidden = hidden@;
    let n_hidden = hidden.len();
    let mut m: usize = 0;
    while hidden.len() > 0
        invariant
            m + hidden@.len() == all_hidden.len(),
            all_hidden.len() == n_hidden,
            hidden@ == all_hidden.subrange(m as int, all_hidden.len() as int),
            keyword_lower@ == lower_of(keyword@),
            all_hits.len() == n_hits,
            entries@.len() == n_hits + all_hidden.subrange(0, m as int).filter(kept_by(all_hits, keyword@)).len(),
            forall|i: int| 0 <= i < n_hits ==> search_record(#[trigger] entries@[i], all_hits[i]),
            forall|i: int|
                0 <= i < all_hidden.subrange(0, m as int).filter(kept_by(all_hits, keyword@)).len() ==> filter_record(
                    #[trigger] entries@[n_hits + i],
                    all_hidden.subrange(0, m as int).filter(kept_by(all_hits, keyword@))[i],
                ),
            forall|x: i64|
                id_set_contents(existing).contains(x) <==> exists|j: int|
                    0 <= j < all_hits.len() && all_hits[j].id == x,
        decreases hidden@.len(),
    {
        let it = hidden.remove(0);
        assert(it == all_hidden[m as int]);
        assert(hidden@ =~= all_hidden.subrange(m + 1, all_hidden.len() as int));
        let ghost pre = all_hidden.subrange(0, m as int);
        assert(all_hidden.subrange(0, m + 1) =~= pre.push(it));
        proof {
            pre.lemma_filter_push(it, kept_by(all_hits, keyword@));
        }
        let mut keep = false;
        if !existing.contains(it.id) {
            let name_lower = to_lower(it.name.as_str());
            let authors_lower = match &it.authors {
                Some(a) => to_lower(a.as_str()),
                None => to_lower(""),
            };
            proof {
                if it.authors.is_none() {
                    reveal_strlit("");
                    assert(""@ =~= hidden_authors(it));
                }
            }
            assert(authors_lower@ == lower_of(hidden_authors(it)));
            assert(name_lower@ == lower_of(it.name@));
            keep = hidden_hit_matches(name_lower.as_str(), authors_lower.as_str(), keyword_lower.as_str());
            assert(keep == hidden_answers(it, keyword@));
            assert(!(exists|j: int| 0 <= j < all_hits.len() && all_hits[j].id == it.id));
        } else {
            assert(exists|j: int| 0 <= j < all_hits.len() && all_hits[j].id == it.id);
        }
        assert(keep == kept_by(all_hits, keyword@)(it));
        let ghost before = entries@;
        let ghost fpre = pre.filter(kept_by(all_hits, keyword@));
        if keep {
            entries.push(it.into_record());
            assert(all_hidden.subrange(0, m + 1).filter(kept_by(all_hits, keyword@)) == fpre.push(it));
            assert forall|i: int|
                0 <= i < fpre.len() + 1 implies filter_record(
                    #[trigger] entries@[n_hits + i],
                    fpre.push(it)[i],
                ) by {
                if i < fpre.len() {
                    assert(entries@[n_hits + i] == before[n_hits + i]);
                }
            }
        } else {
            assert(all_hidden.subrange(0, m + 1).filter(kept_by(all_hits, keyword@)) == fpre);
        }
        m = m + 1;
    }
    assert(all_hidden.subrange(0, all_hidden.len() as int) =~= all_hidden);
    let has_next_page = entries.len() > 0;
    PageResult { entries, has_next_page }
}

/// The first hidden-content page that belongs to result page `page`.
pub fn hidden_scan_start(page: i32) -> (r: i64)
    ensures
        r == (page - 1) * 5 + 1,
{
    (page as i64 - 1) * 5 + 1
}


/// Whether a text is empty or all white space.
pub fn is_blank(s: &str) -> (r: bool)
    ensures
        r == (trim(s@).len() == 0),
{
    let t = crate::text::trim_str(s);
    t.unicode_len() == 0
}

/// What one attempt of the keyword search brought back.
#[derive(Debug)]
pub struct KeywordAttempt {
    /// Whether some answer said that the token is no longer valid.
    pub auth_error: bool,
    /// The search payload, kept only when the search answer was no such refusal.
    pub search: Option<SearchData>,
    /// The hidden entries read, in page order, up to a refusal.
    pub hidden: Vec<FilterItem>,
}

/// The hidden answers read in order: a refusal stops the reading; failed
/// answers and answers without a payload add nothing.
pub open spec fn hidden_read(a: Seq<Option<ApiResponse<FilterData>>>) -> (bool, Seq<FilterItem>)
    decreases a.len(),
{
    if a.len() == 0 {
        (false, Seq::<FilterItem>::empty())
    } else {
        match a[0] {
            None => hidden_read(a.drop_first()),
            Some(r) => if r.errno == Some(AUTH_ERRNO) {
                (true, Seq::<FilterItem>::empty())
            } else {
                let rest = hidden_read(a.drop_first());
                let items = match r.data {
                    Some(d) => d.comic_list@,
                    None => Seq::<FilterItem>::empty(),
                };
                (rest.0, items + rest.1)
            },
        }
    }
}

/// Reads the answers of one attempt: the search answer (`None` when it
/// failed) and, when hidden content is scanned, the hidden pages' answers.
/// A refused token in the search answer skips the hidden answers.
pub fn read_keyword_attempt(
    search: Option<ApiResponse<SearchData>>,
    hidden: Vec<Option<ApiResponse<FilterData>>>,
    scan_hidden: bool,
) -> (r: KeywordAttempt)
    ensures
        r.search == (if search.is_some() && search.unwrap().errno != Some(AUTH_ERRNO) {
            search.unwrap().data
        } else {
            None
        }),
        r.auth_error == ((search.is_some() && search.unwrap().errno == Some(AUTH_ERRNO)) || (
        scan_hidden && hidden_read(hidden@).0)),
        r.hidden@ == (if scan_hidden && !(search.is_some() && search.unwrap().errno == Some(
            AUTH_ERRNO,
        )) {
            hidden_read(hidden@).1
        } else {
            Seq::<FilterItem>::empty()
        }),
{
    let refused = match &search {
        Some(resp) => is_auth_error(resp.errno),
        None => false,
    };
    let mut hidden_refused = false;
    let mut items: Vec<FilterItem> = Vec::new();
    if scan_hidden && !refused {
        let mut rest = hidden;
        let ghost all = rest@;
        while rest.len() > 0 && !hidden_refused
            invariant
                !hidden_refused ==> hidden_read(all).0 == hidden_read(rest@).0 && hidden_read(all).1
                    == items@ + hidden_read(rest@).1,
                hidden_refused ==> hidden_read(all) == (true, items@),
            decreases rest@.len(),
        {
            let ghost before = rest@;
            let answer = rest.remove(0);
            assert(answer == before[0]);
            assert(rest@ =~= before.drop_first());
            match answer {
                None => {},
                Some(resp) => {
                    if is_auth_error(resp.errno) {
                        assert(items@ + Seq::<FilterItem>::empty() =~= items@);
                        hidden_refused = true;
                    } else {
                        match resp.data {
                            Some(d) => {
                                let ghost pre = items@;
                                let mut list = d.comic_list;
                                let ghost l = list@;
                                items.append(&mut list);
                                assert(pre + (l + hidden_read(rest@).1) =~= items@ + hidden_read(
                                    rest@,
                                ).1);
                            },
                            None => {
                                assert(Seq::<FilterItem>::empty() + hidden_read(rest@).1
                                    =~= hidden_read(rest@).1);
                            },
                        }
                    }
                },
            }
        }
        assert(items@ + Seq::<FilterItem>::empty() =~= items@);
    }
    let data = if refused {
        None
    } else {
        match search {
            Some(resp) => resp.data,
            None => None,
        }
    };
    KeywordAttempt { auth_error: refused || hidden_refused, search: data, hidden: items }
}

} // verus!

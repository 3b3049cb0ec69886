//! The records of the site's endpoints, numeric keys and status labels.

use vstd::prelude::*;

use crate::text::{chars_of, contains_chars, contains_seq};

verus! {

/// Publication status of a title.
#[derive(Clone, Copy, Debug, PartialEq, Eq, Structural)]
pub enum MangaStatus {
    Unknown,
    Ongoing,
    Completed,
    Hiatus,
}

/// A title as the host shows it in a list: its key is the decimal numeric ID.
#[derive(Clone, Debug)]
pub struct MangaRecord {
    pub key: String,
    pub title: String,
    pub cover: Option<String>,
    pub authors: Option<Vec<String>>,
    pub status: MangaStatus,
}

/// One hit of the keyword search endpoint.
#[derive(Clone, Debug)]
pub struct SearchItem {
    pub id: i64,
    pub title: String,
    pub cover: Option<String>,
    pub authors: Option<String>,
    pub status: Option<String>,
}

/// The payload of the keyword search endpoint.
#[derive(Clone, Debug)]
pub struct SearchData {
    pub list: Vec<SearchItem>,
    pub total: Option<i64>,
}

/// One entry of the filter (by theme, tag or latest) endpoint.
#[derive(Clone, Debug)]
pub struct FilterItem {
    pub id: i64,
    pub name: String,
    pub cover: Option<String>,
    pub authors: Option<String>,
    pub status: Option<String>,
    pub last_update_chapter_name: Option<String>,
    pub last_update_chapter_id: Option<i64>,
    pub last_updatetime: Option<i64>,
}

/// The payload of the filter endpoint.
#[derive(Clone, Debug)]
pub struct FilterData {
    pub comic_list: Vec<FilterItem>,
    pub total: Option<i64>,
}

/// The envelope of every endpoint: an error number, a message and the payload.
#[derive(Clone, Debug)]
pub struct ApiResponse<T> {
    pub errno: Option<i64>,
    pub errmsg: Option<String>,
    pub data: Option<T>,
}

/// One credited author in a title's detail: the tag that groups the author's works.
#[derive(Clone, Debug)]
pub struct AuthorTag {
    pub tag_id: Option<i64>,
    pub tag_name: Option<String>,
}

/// A page of titles, and whether another page follows.
#[derive(Clone, Debug)]
pub struct PageResult {
    pub entries: Vec<MangaRecord>,
    pub has_next_page: bool,
}

impl PageResult {
    /// The page with no entries and nothing after it.
    pub fn empty() -> (r: PageResult)
        ensures
            r.entries@.len() == 0,
            !r.has_next_page,
    {
        PageResult { entries: Vec::new(), has_next_page: false }
    }
}

pub open spec fn is_digit(c: char) -> bool {
    '0' <= c && c <= '9'
}

pub open spec fn digit_value(c: char) -> int {
    c as int - '0' as int
}

pub open spec fn digit_char(d: nat) -> char {
    if d == 0 {
        '0'
    } else if d == 1 {
        '1'
    } else if d == 2 {
        '2'
    } else if d == 3 {
        '3'
    } else if d == 4 {
        '4'
    } else if d == 5 {
        '5'
    } else if d == 6 {
        '6'
    } else if d == 7 {
        '7'
    } else if d == 8 {
        '8'
    } else {
        '9'
    }
}

/// The decimal digits of `n`, without leading zeros.
pub open spec fn digits_of(n: nat) -> Seq<char>
    decreases n,
{
    if n < 10 {
        seq![digit_char(n)]
    } else {
        digits_of(n / 10).push(digit_char(n % 10))
    }
}

/// `n` written in decimal, with a leading `-` when negative.
pub open spec fn decimal_of(n: int) -> Seq<char> {
    if n < 0 {
        seq!['-'] + digits_of((-n) as nat)
    } else {
        digits_of(n as nat)
    }
}

/// The value of a sequence of decimal digits.
pub open spec fn digits_value(s: Seq<char>) -> int
    decreases s.len(),
{
    if s.len() == 0 {
        0
    } else {
        digits_value(s.drop_last()) * 10 + digit_value(s.last())
    }
}

pub open spec fn all_digits(s: Seq<char>) -> bool {
    forall|i: int| 0 <= i < s.len() ==> is_digit(#[trigger] s[i])
}

/// What `str::parse::<i64>` gives: an optional sign, then one or more decimal
/// digits whose value fits in an `i64`.
pub open spec fn parsed_i64(s: Seq<char>) -> Option<int> {
    let signed = s.len() > 0 && (s[0] == '+' || s[0] == '-');
    let body = if signed {
        s.drop_first()
    } else {
        s
    };
    let v = if signed && s[0] == '-' {
        -digits_value(body)
    } else {
        digits_value(body)
    };
    if body.len() > 0 && all_digits(body) && i64::MIN <= v <= i64::MAX {
        Some(v)
    } else {
        None
    }
}

/// The numeric ID that a key stands for: its parsed value when that is positive.
pub open spec fn positive_id(s: Seq<char>) -> Option<int> {
    match parsed_i64(s) {
        Some(v) => if v > 0 {
            Some(v)
        } else {
            None
        },
        None => None,
    }
}

pub proof fn lemma_digits_value_monotone(s: Seq<char>, k: int)
    requires
        all_digits(s),
        0 <= k <= s.len(),
    ensures
        digits_value(s.subrange(0, k)) <= digits_value(s),
        0 <= digits_value(s.subrange(0, k)),
    decreases s.len(),
{
    if s.len() > 0 {
        assert(s.drop_last() =~= s.subrange(0, s.len() - 1));
        if k == s.len() {
            assert(s.subrange(0, k) =~= s);
            lemma_digits_value_monotone(s.drop_last(), k - 1);
        } else {
            assert(s.drop_last().subrange(0, k) =~= s.subrange(0, k));
            lemma_digits_value_monotone(s.drop_last(), k);
        }
        assert(all_digits(s.drop_last()));
        assert(is_digit(s[s.len() - 1]));
    }
}

/// The decimal digits of `n`.
fn digits_string(n: u64) -> (r: String)
    ensures
        r@ == digits_of(n as nat),
    decreases n,
{
    let table = "0123456789";
    proof {
        reveal_strlit("0123456789");
    }
    let d = (n % 10) as usize;
    let last = table.substring_char(d, d + 1);
    assert(last@ =~= seq![digit_char((n % 10) as nat)]);
    if n < 10 {
        return String::from_str(last);
    }
    digits_string(n / 10).concat(last)
}

/// The key under which the host knows the title with numeric ID `id`: the
/// ID in decimal.
pub fn id_key(id: i64) -> (r: String)
    ensures
        r@ == decimal_of(id as int),
{
    if id < 0 {
        let mag = (0 - (id as i128)) as u64;
        proof {
            reveal_strlit("-");
            assert("-"@ =~= seq!['-']);
            assert(mag as nat == (-(id as int)) as nat);
        }
        String::from_str("-").concat(digits_string(mag).as_str())
    } else {
        digits_string(id as u64)
    }
}

/// The numeric ID that `key` stands for, if it parses as an `i64` greater than zero.
pub fn parse_positive_id(key: &str) -> (r: Option<i64>)
    ensures
        r.is_some() == positive_id(key@).is_some(),
        r.is_some() ==> positive_id(key@) == Some(r.unwrap() as int),
{
    let cs = chars_of(key);
    let n = cs.len();
    let mut i: usize = 0;
    if n > 0 && cs[0] == '-' {
        proof {
            let body = key@.drop_first();
            if all_digits(body) {
                lemma_digits_value_monotone(body, 0);
            }
        }
        return None;
    }
    if n > 0 && cs[0] == '+' {
        i = 1;
    }
    let start = i;
    let ghost body = key@.subrange(start as int, n as int);
    assert(start == 1 ==> body =~= key@.drop_first());
    assert(start == 0 ==> body =~= key@);
    assert((key@.len() > 0 && (key@[0] == '+' || key@[0] == '-')) == (start == 1));
    if i == n {
        return None;
    }
    let mut acc: i64 = 0;
    while i < n
        invariant
            cs@ == key@,
            n == cs@.len(),
            start <= i <= n,
            body == key@.subrange(start as int, n as int),
            start <= 1,
            (key@.len() > 0 && (key@[0] == '+' || key@[0] == '-')) == (start == 1),
            start == 1 ==> body == key@.drop_first(),
            start == 0 ==> body == key@,
            key@.len() > 0 ==> key@[0] != '-',
            all_digits(key@.subrange(start as int, i as int)),
            acc == digits_value(key@.subrange(start as int, i as int)),
            0 <= acc,
        decreases n - i,
    {
        let c = cs[i];
        assert(key@.subrange(start as int, i + 1).drop_last() =~= key@.subrange(
            start as int,
            i as int,
        ));
        if !('0' <= c && c <= '9') {
            assert(body[i - start] == c);
            assert(!all_digits(body));
            return None;
        }
        let d = (c as u32 - '0' as u32) as i64;
        if acc > (i64::MAX - d) / 10 {
            proof {
                assert(acc * 10 + d > i64::MAX) by (nonlinear_arith)
                    requires
                        acc > (i64::MAX - d) / 10,
                        0 <= d <= 9,
                ;
                assert(digit_value(c) == d);
                assert(digits_value(key@.subrange(start as int, i + 1)) == acc * 10 + d);
                assert(key@.subrange(start as int, i + 1) =~= body.subrange(0, i + 1 - start));
                if all_digits(body) {
                    lemma_digits_value_monotone(body, i + 1 - start);
                }
            }
            return None;
        }
        acc = acc * 10 + d;
        i = i + 1;
    }
    assert(key@.subrange(start as int, n as int) == body);
    if acc == 0 {
        return None;
    }
    Some(acc)
}

/// The status that a status label names, as the site writes them.
pub fn parse_status(status_str: &str) -> (r: MangaStatus)
    ensures
        r == status_of(status_str@),
{
    let s = chars_of(status_str);
    let ongoing = chars_of("连载");
    let completed = chars_of("完结");
    let stopped = chars_of("停更");
    let paused = chars_of("暂停");
    if contains_chars(&s, &ongoing) {
        MangaStatus::Ongoing
    } else if contains_chars(&s, &completed) {
        MangaStatus::Completed
    } else if contains_chars(&s, &stopped) || contains_chars(&s, &paused) {
        MangaStatus::Hiatus
    } else {
        MangaStatus::Unknown
    }
}

/// The status that a status label names: the first of "连载" (ongoing), "完结"
/// (completed), "停更" or "暂停" (on hiatus) that it contains.
pub open spec fn status_of(s: Seq<char>) -> MangaStatus {
    if contains_seq(s, "连载"@) {
        MangaStatus::Ongoing
    } else if contains_seq(s, "完结"@) {
        MangaStatus::Completed
    } else if contains_seq(s, "停更"@) || contains_seq(s, "暂停"@) {
        MangaStatus::Hiatus
    } else {
        MangaStatus::Unknown
    }
}

/// The status of an optional label; an absent one is unknown.
pub open spec fn status_of_opt(s: Option<String>) -> MangaStatus {
    match s {
        Some(t) => status_of(t@),
        None => MangaStatus::Unknown,
    }
}

fn status_from(s: &Option<String>) -> (r: MangaStatus)
    ensures
        r == status_of_opt(*s),
{
    match s {
        Some(t) => parse_status(t.as_str()),
        None => MangaStatus::Unknown,
    }
}

fn authors_list(a: Option<String>) -> (r: Option<Vec<String>>)
    ensures
        a.is_none() ==> r.is_none(),
        a.is_some() ==> r.is_some() && r.unwrap()@ == seq![a.unwrap()],
{
    match a {
        Some(s) => {
            let mut v: Vec<String> = Vec::new();
            v.push(s);
            Some(v)
        },
        None => None,
    }
}

/// The list record that a search hit stands for.
pub open spec fn is_record_of(r: MangaRecord, id: i64, title: String, cover: Option<String>, authors: Option<String>, status: Option<String>) -> bool {
    &&& r.key@ == decimal_of(id as int)
    &&& r.title == title
    &&& r.cover == cover
    &&& (authors.is_none() ==> r.authors.is_none())
    &&& (authors.is_some() ==> r.authors.is_some() && r.authors.unwrap()@ == seq![authors.unwrap()])
    &&& r.status == status_of_opt(status)
}

impl SearchItem {
    /// The list record of this hit: key from the ID, the title, cover, the
    /// author field as the single author, and the status from its label.
    pub fn into_record(self) -> (r: MangaRecord)
        ensures
            is_record_of(r, self.id, self.title, self.cover, self.authors, self.status),
    {
        let status = status_from(&self.status);
        MangaRecord {
            key: id_key(self.id),
            title: self.title,
            cover: self.cover,
            authors: authors_list(self.authors),
            status,
        }
    }
}

impl FilterItem {
    /// The list record of this entry, built as for a search hit.
    pub fn into_record(self) -> (r: MangaRecord)
        ensures
            is_record_of(r, self.id, self.name, self.cover, self.authors, self.status),
    {
        let status = status_from(&self.status);
        MangaRecord {
            key: id_key(self.id),
            title: self.name,
            cover: self.cover,
            authors: authors_list(self.authors),
            status,
        }
    }
}

} // verus!

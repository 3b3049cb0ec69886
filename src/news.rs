//! The home page's banners, read from the site's news page.

use vstd::prelude::*;

use crate::keyword::digit_prefix_len;
use crate::search::holds_text;
use crate::text::{chars_of, occurs_at, occurs_at_exec};

verus! {

/// At most this many banner links are taken from the news page.
pub const MAX_NEWS_LINKS: usize = 5;

/// A banner of the home page: an article's picture and the article.
#[derive(Clone, Debug)]
pub struct NewsLink {
    pub image_url: String,
    pub news_url: String,
}

pub open spec fn image_marker() -> Seq<char> {
    "images.zaimanhua.com/news/article/"@
}

/// The pieces of `s` between occurrences of `m`, as `str::split` finds them
/// (left to right, without overlap), from a piece that starts at `cur` and
/// a search that has reached `i`.
pub open spec fn pieces_from(s: Seq<char>, m: Seq<char>, cur: int, i: int) -> Seq<Seq<char>>
    decreases s.len() + 1 - i,
{
    if m.len() == 0 || i < cur || i + m.len() > s.len() {
        seq![s.subrange(cur, s.len() as int)]
    } else if occurs_at(s, m, i) {
        seq![s.subrange(cur, i)] + pieces_from(s, m, i + m.len(), i + m.len())
    } else {
        pieces_from(s, m, cur, i + 1)
    }
}

/// The pieces of `s` between occurrences of `m`.
pub open spec fn split_text(s: Seq<char>, m: Seq<char>) -> Seq<Seq<char>> {
    pieces_from(s, m, 0, 0)
}

/// Whether `c` ends a picture address in the page.
pub open spec fn ends_address(c: char) -> bool {
    c == '"' || c == '\'' || c == ' '
}

/// How many characters `s` starts with before one that ends an address.
pub open spec fn address_len(s: Seq<char>) -> nat
    decreases s.len(),
{
    if s.len() > 0 && !ends_address(s[0]) {
        1 + address_len(s.drop_first())
    } else {
        0
    }
}

/// The (article ID, picture path) pairs that the pieces after the first give:
/// the ID is the piece's leading digits, the path runs to the first quote or
/// space; pieces without an ID, repeated IDs and pieces after the fifth link
/// are passed over.
pub open spec fn news_from(pieces: Seq<Seq<char>>) -> Seq<(Seq<char>, Seq<char>)>
    decreases pieces.len(),
{
    if pieces.len() <= 1 {
        Seq::empty()
    } else {
        news_step(news_from(pieces.drop_last()), pieces.last())
    }
}

pub open spec fn news_step(prev: Seq<(Seq<char>, Seq<char>)>, part: Seq<char>) -> Seq<
    (Seq<char>, Seq<char>),
> {
    let id = part.subrange(0, digit_prefix_len(part) as int);
    let path = part.subrange(0, address_len(part) as int);
    if prev.len() >= MAX_NEWS_LINKS || id.len() == 0 || (exists|j: int|
        0 <= j < prev.len() && prev[j].0 == id) {
        prev
    } else {
        prev.push((id, path))
    }
}

/// The link that an (article ID, picture path) pair stands for.
pub open spec fn link_for(l: NewsLink, entry: (Seq<char>, Seq<char>)) -> bool {
    &&& l.image_url@ == "https://images.zaimanhua.com/news/article/"@ + entry.1
    &&& l.news_url@ == "https://news.zaimanhua.com/article/"@ + entry.0 + ".html"@
}

/// How many characters from `a` (before `b`) satisfy the digit test.
fn digits_between(s: &Vec<char>, a: usize, b: usize) -> (r: usize)
    requires
        a <= b <= s@.len(),
    ensures
        a + r <= b,
        r == digit_prefix_len(s@.subrange(a as int, b as int)),
{
    let mut i = a;
    while i < b && '0' <= s[i] && s[i] <= '9'
        invariant
            a <= i <= b <= s@.len(),
            digit_prefix_len(s@.subrange(a as int, b as int)) == (i - a) + digit_prefix_len(
                s@.subrange(i as int, b as int),
            ),
        decreases b - i,
    {
        assert(s@.subrange(i as int, b as int).drop_first() =~= s@.subrange(i + 1, b as int));
        i = i + 1;
    }
    i - a
}

/// How many characters from `a` (before `b`) come before one that ends an address.
fn address_between(s: &Vec<char>, a: usize, b: usize) -> (r: usize)
    requires
        a <= b <= s@.len(),
    ensures
        a + r <= b,
        r == address_len(s@.subrange(a as int, b as int)),
{
    let mut i = a;
    while i < b && !(s[i] == '"' || s[i] == '\'' || s[i] == ' ')
        invariant
            a <= i <= b <= s@.len(),
            address_len(s@.subrange(a as int, b as int)) == (i - a) + address_len(
                s@.subrange(i as int, b as int),
            ),
        decreases b - i,
    {
        assert(s@.subrange(i as int, b as int).drop_first() =~= s@.subrange(i + 1, b as int));
        i = i + 1;
    }
    i - a
}

/// Takes the piece `html[a..b]` (not the first piece) into the links.
fn take_piece(
    html: &str,
    cs: &Vec<char>,
    a: usize,
    b: usize,
    links: &mut Vec<NewsLink>,
    ids: &mut Vec<String>,
    found: Ghost<Seq<(Seq<char>, Seq<char>)>>,
) -> (r: Ghost<Seq<(Seq<char>, Seq<char>)>>)
    requires
        cs@ == html@,
        a <= b <= cs@.len(),
        old(links)@.len() == found@.len(),
        old(ids)@.len() == found@.len(),
        forall|j: int| 0 <= j < found@.len() ==> link_for(#[trigger] old(links)@[j], found@[j]),
        forall|j: int| 0 <= j < found@.len() ==> #[trigger] old(ids)@[j]@ == found@[j].0,
    ensures
        r@ == news_step(found@, html@.subrange(a as int, b as int)),
        final(links)@.len() == r@.len(),
        final(ids)@.len() == r@.len(),
        forall|j: int| 0 <= j < r@.len() ==> link_for(#[trigger] final(links)@[j], r@[j]),
        forall|j: int| 0 <= j < r@.len() ==> #[trigger] final(ids)@[j]@ == r@[j].0,
{
    let ghost part = html@.subrange(a as int, b as int);
    if links.len() >= MAX_NEWS_LINKS {
        return found;
    }
    let d = digits_between(cs, a, b);
    if d == 0 {
        return found;
    }
    let id = String::from_str(html.substring_char(a, a + d));
    assert(id@ =~= part.subrange(0, digit_prefix_len(part) as int));
    if holds_text(ids, &id) {
        proof {
            let views = ids@.map_values(|s: String| s@);
            let k = choose|k: int| 0 <= k < views.len() && views[k] == id@;
            assert(found@[k].0 == id@);
        }
        return found;
    }
    proof {
        assert forall|j: int| 0 <= j < found@.len() implies found@[j].0 != id@ by {
            assert(ids@.map_values(|s: String| s@)[j] == ids@[j]@);
        }
    }
    let p = address_between(cs, a, b);
    let path = html.substring_char(a, a + p);
    assert(path@ =~= part.subrange(0, address_len(part) as int));
    let image_url = String::from_str("https://images.zaimanhua.com/news/article/").concat(path);
    let news_url = String::from_str("https://news.zaimanhua.com/article/").concat(id.as_str()).concat(
        ".html",
    );
    links.push(NewsLink { image_url, news_url });
    ids.push(id);
    let ghost next = found@.push((part.subrange(0, digit_prefix_len(part) as int), part.subrange(0, address_len(part) as int)));
    assert(next == news_step(found@, part));
    Ghost(next)
}

/// The banner links of the news page: for each picture of an article (after
/// the marker `images.zaimanhua.com/news/article/`), the picture and the
/// article page, at most five, each article once.
pub fn news_links(html: &str) -> (r: Vec<NewsLink>)
    ensures
        r@.len() == news_from(split_text(html@, image_marker())).len(),
        forall|j: int|
            0 <= j < r@.len() ==> link_for(
                #[trigger] r@[j],
                news_from(split_text(html@, image_marker()))[j],
            ),
{
    let cs = chars_of(html);
    let marker = chars_of("images.zaimanhua.com/news/article/");
    proof {
        reveal_strlit("images.zaimanhua.com/news/article/");
    }
    let n = cs.len();
    let m = marker.len();
    let mut links: Vec<NewsLink> = Vec::new();
    let mut ids: Vec<String> = Vec::new();
    let mut found: Ghost<Seq<(Seq<char>, Seq<char>)>> = Ghost(Seq::empty());
    let ghost mut emitted: Seq<Seq<char>> = Seq::empty();
    let mut cur: usize = 0;
    let mut i: usize = 0;
    let mut past_first = false;
    while m <= n - i
        invariant
            cs@ == html@,
            n == cs@.len(),
            marker@ == image_marker(),
            m == marker@.len(),
            m > 0,
            cur <= i,
            i <= n,
            split_text(html@, image_marker()) == emitted + pieces_from(html@, image_marker(), cur as int, i as int),
            found@ == news_from(emitted),
            past_first == (emitted.len() >= 1),
            links@.len() == found@.len(),
            ids@.len() == found@.len(),
            forall|j: int| 0 <= j < found@.len() ==> link_for(#[trigger] links@[j], found@[j]),
            forall|j: int| 0 <= j < found@.len() ==> #[trigger] ids@[j]@ == found@[j].0,
        decreases n + 1 - i,
    {
        if occurs_at_exec(&cs, &marker, i) {
            let ghost piece = html@.subrange(cur as int, i as int);
            assert(emitted + pieces_from(html@, image_marker(), cur as int, i as int) =~= emitted.push(piece)
                + pieces_from(html@, image_marker(), (i + m) as int, (i + m) as int));
            if past_first {
                found = take_piece(html, &cs, cur, i, &mut links, &mut ids, found);
                assert(emitted.push(piece).drop_last() =~= emitted);
            } else {
                assert(news_from(emitted.push(piece)) == Seq::<(Seq<char>, Seq<char>)>::empty());
            }
            proof {
                emitted = emitted.push(piece);
            }
            i = i + m;
            cur = i;
            past_first = true;
        } else {
            i = i + 1;
        }
    }
    let ghost last = html@.subrange(cur as int, n as int);
    assert(pieces_from(html@, image_marker(), cur as int, i as int) == seq![last]);
    assert(emitted + seq![last] =~= emitted.push(last));
    if past_first {
        found = take_piece(html, &cs, cur, n, &mut links, &mut ids, found);
        assert(emitted.push(last).drop_last() =~= emitted);
    }
    links
}

} // verus!

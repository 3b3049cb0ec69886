//! The fuzzy fallback's queries: the author name without decorations, and
//! its short form.

use vstd::prelude::*;

use crate::text::{chars_of, same_chars};

verus! {

/// `s` with every leading `c` removed.
pub open spec fn strip_leading(s: Seq<char>, c: char) -> Seq<char>
    decreases s.len(),
{
    if s.len() > 0 && s[0] == c {
        strip_leading(s.drop_first(), c)
    } else {
        s
    }
}

/// The author name without the decorative marks that may lead it: first
/// every `◎`, then every `@`, then every `◯`.
pub open spec fn core_name_of(author: Seq<char>) -> Seq<char> {
    strip_leading(strip_leading(strip_leading(author, '◎'), '@'), '◯')
}

/// The first two characters of a core name of four characters or more;
/// a shorter core name stays as it is.
pub open spec fn short_core_of(core: Seq<char>) -> Seq<char> {
    if core.len() >= 4 {
        core.subrange(0, 2)
    } else {
        core
    }
}

/// The queries the fallback tries, in order: the core name, then the short
/// core, each left out when empty, equal to the author, or already listed.
pub open spec fn fuzzy_terms_of(author: Seq<char>) -> Seq<Seq<char>> {
    let core = core_name_of(author);
    let short = short_core_of(core);
    let first = if core.len() > 0 && core != author {
        seq![core]
    } else {
        Seq::<Seq<char>>::empty()
    };
    if short.len() > 0 && short != author && short != core {
        first.push(short)
    } else {
        first
    }
}

/// The position from which `s[from..]` no longer starts with `c`.
fn skip_leading(s: &Vec<char>, from: usize, c: char) -> (r: usize)
    requires
        from <= s@.len(),
    ensures
        from <= r <= s@.len(),
        strip_leading(s@.subrange(from as int, s@.len() as int), c) == s@.subrange(
            r as int,
            s@.len() as int,
        ),
{
    let n = s.len();
    let mut i = from;
    while i < n && s[i] == c
        invariant
            from <= i <= n == s@.len(),
            strip_leading(s@.subrange(from as int, n as int), c) == strip_leading(
                s@.subrange(i as int, n as int),
                c,
            ),
        decreases n - i,
    {
        assert(s@.subrange(i as int, n as int).drop_first() =~= s@.subrange(i + 1, n as int));
        i = i + 1;
    }
    i
}

/// The author name without its leading decorative marks.
pub fn core_name(author: &str) -> (r: String)
    ensures
        r@ == core_name_of(author@),
{
    let cs = chars_of(author);
    let n = cs.len();
    assert(cs@.subrange(0, n as int) =~= cs@);
    let a = skip_leading(&cs, 0, '◎');
    let b = skip_leading(&cs, a, '@');
    let c = skip_leading(&cs, b, '◯');
    String::from_str(author.substring_char(c, n))
}

/// The shortened core name: its first two characters when it has four or more.
pub fn short_core(core: &str) -> (r: String)
    ensures
        r@ == short_core_of(core@),
{
    let n = core.unicode_len();
    if n >= 4 {
        String::from_str(core.substring_char(0, 2))
    } else {
        String::from_str(core)
    }
}

/// The queries the fuzzy fallback tries for `author`, in order.
pub fn fuzzy_terms(author: &str) -> (r: Vec<String>)
    ensures
        r@.len() == fuzzy_terms_of(author@).len(),
        forall|i: int| 0 <= i < r@.len() ==> #[trigger] r@[i]@ == fuzzy_terms_of(author@)[i],
{
    let core = core_name(author);
    let short = short_core(core.as_str());
    let a = chars_of(author);
    let c = chars_of(core.as_str());
    let s = chars_of(short.as_str());
    let mut r: Vec<String> = Vec::new();
    let use_core = c.len() > 0 && !same_chars(&c, &a);
    let use_short = s.len() > 0 && !same_chars(&s, &a) && !same_chars(&s, &c);
    if use_core {
        r.push(core);
    }
    if use_short {
        r.push(short);
    }
    r
}

/// The short core is the first two characters of a core name of four
/// characters or more, and the core name itself otherwise; a short core
/// equal to the core name is never tried twice.
pub proof fn lemma_short_core(author: Seq<char>)
    ensures
        core_name_of(author).len() >= 4 ==> short_core_of(core_name_of(author)) == core_name_of(
            author,
        ).subrange(0, 2),
        core_name_of(author).len() < 4 ==> short_core_of(core_name_of(author)) == core_name_of(
            author,
        ),
        fuzzy_terms_of(author).len() <= 2,
        forall|i: int, j: int|
            0 <= i < j < fuzzy_terms_of(author).len() ==> fuzzy_terms_of(author)[i]
                != fuzzy_terms_of(author)[j],
        forall|i: int|
            0 <= i < fuzzy_terms_of(author).len() ==> fuzzy_terms_of(author)[i] != author
                && fuzzy_terms_of(author)[i].len() > 0,
{
}

} // verus!

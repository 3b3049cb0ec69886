//! Matching credited author fields against the author searched for.

use vstd::prelude::*;

use crate::models::{FilterItem, SearchItem};
use crate::text::{
    chars_of, contains_chars, contains_seq, same_chars, split_chars, split_on, trim, trim_chars,
    views_of,
};

verus! {

/// How a credited author field relates to the author searched for.
#[derive(Clone, Copy, Debug, PartialEq, Eq, Structural)]
pub enum MatchResult {
    /// One of the names is the searched author exactly.
    Strict,
    /// One of the names contains the searched author, or is contained in it.
    Partial,
    /// Neither.
    Unmatched,
}

/// A name (once trimmed) is the target exactly; empty names never match.
pub open spec fn name_is(p: Seq<char>, target: Seq<char>) -> bool {
    trim(p).len() > 0 && trim(p) == target
}

/// A name (once trimmed) contains the target or is contained in it; empty
/// names never match.
pub open spec fn name_overlaps(p: Seq<char>, target: Seq<char>) -> bool {
    trim(p).len() > 0 && (contains_seq(trim(p), target) || contains_seq(target, trim(p)))
}

/// The names of a credited author field: its `/`-separated pieces.
pub open spec fn names_of(field: Seq<char>) -> Seq<Seq<char>> {
    split_on(field, '/')
}

pub open spec fn some_name_is(field: Seq<char>, target: Seq<char>) -> bool {
    exists|k: int| 0 <= k < names_of(field).len() && name_is(#[trigger] names_of(field)[k], target)
}

pub open spec fn some_name_overlaps(field: Seq<char>, target: Seq<char>) -> bool {
    exists|k: int|
        0 <= k < names_of(field).len() && name_overlaps(#[trigger] names_of(field)[k], target)
}

/// The class of a credited author field against a target author.
pub open spec fn classify_spec(field: Seq<char>, target: Seq<char>) -> MatchResult {
    if some_name_is(field, target) {
        MatchResult::Strict
    } else if some_name_overlaps(field, target) {
        MatchResult::Partial
    } else {
        MatchResult::Unmatched
    }
}

/// The author field of an optional value; an absent one has no names to match.
pub open spec fn field_of(a: Option<String>) -> Seq<char> {
    match a {
        Some(s) => s@,
        None => Seq::<char>::empty(),
    }
}

/// An optional author field matches the target, strictly or partially.
pub open spec fn author_matches(a: Option<String>, target: Seq<char>) -> bool {
    classify_spec(field_of(a), target) != MatchResult::Unmatched
}

/// Some `,`-separated piece of the field is, once trimmed, the target exactly.
pub open spec fn some_token_is(field: Seq<char>, target: Seq<char>) -> bool {
    exists|k: int|
        0 <= k < split_on(field, ',').len() && trim(#[trigger] split_on(field, ',')[k]) == target
}

/// Classify a credited author field (`"A/B/C"` for several authors) against
/// the author searched for.
pub fn classify(candidate_author_field: &str, target_author: &str) -> (r: MatchResult)
    ensures
        r == classify_spec(candidate_author_field@, target_author@),
{
    let field = chars_of(candidate_author_field);
    let target = chars_of(target_author);
    classify_chars(&field, &target)
}

fn classify_chars(field: &Vec<char>, target: &Vec<char>) -> (r: MatchResult)
    ensures
        r == classify_spec(field@, target@),
{
    let pieces = split_chars(field, '/');
    let ghost ps = names_of(field@);
    let mut strict = false;
    let mut partial = false;
    let mut i: usize = 0;
    while i < pieces.len()
        invariant
            views_of(pieces@) == ps,
            ps == names_of(field@),
            i <= pieces@.len(),
            strict == exists|k: int| 0 <= k < i && name_is(#[trigger] ps[k], target@),
            partial == exists|k: int| 0 <= k < i && name_overlaps(#[trigger] ps[k], target@),
        decreases pieces@.len() - i,
    {
        let name = trim_chars(&pieces[i]);
        assert(ps[i as int] == pieces@[i as int]@);
        if name.len() > 0 {
            if same_chars(&name, target) {
                strict = true;
            }
            if contains_chars(&name, target) || contains_chars(target, &name) {
                partial = true;
            }
        }
        i = i + 1;
    }
    if strict {
        MatchResult::Strict
    } else if partial {
        MatchResult::Partial
    } else {
        MatchResult::Unmatched
    }
}

/// Whether the field matches the target, strictly or partially.
pub fn field_matches(field: &Option<String>, target_author: &str) -> (r: bool)
    ensures
        r == author_matches(*field, target_author@),
{
    match field {
        Some(a) => classify(a.as_str(), target_author) != MatchResult::Unmatched,
        None => {
            let empty: Vec<char> = Vec::new();
            let target = chars_of(target_author);
            assert(empty@ =~= Seq::<char>::empty());
            classify_chars(&empty, &target) != MatchResult::Unmatched
        },
    }
}

/// Whether some `,`-separated piece of the field is, once trimmed, the target.
pub fn field_has_exact_token(field: &Option<String>, target_author: &str) -> (r: bool)
    ensures
        r == (field.is_some() && some_token_is(field.unwrap()@, target_author@)),
{
    match field {
        None => false,
        Some(a) => {
            let cs = chars_of(a.as_str());
            let target = chars_of(target_author);
            let pieces = split_chars(&cs, ',');
            let ghost ps = split_on(a@, ',');
            let mut i: usize = 0;
            while i < pieces.len()
                invariant
                    views_of(pieces@) == ps,
                    ps == split_on(a@, ','),
                    target@ == target_author@,
                    field.is_some(),
                    field.unwrap()@ == a@,
                    i <= pieces@.len(),
                    forall|k: int| 0 <= k < i ==> trim(#[trigger] ps[k]) != target@,
                decreases pieces@.len() - i,
            {
                let name = trim_chars(&pieces[i]);
                assert(ps[i as int] == pieces@[i as int]@);
                if same_chars(&name, &target) {
                    assert(trim(split_on(field.unwrap()@, ',')[i as int]) == target_author@);
                    return true;
                }
                i = i + 1;
            }
            false
        },
    }
}

/// A single author name: not empty, no white space at either end, no `/`.
pub open spec fn single_name(s: Seq<char>) -> bool {
    s.len() > 0 && trim(s) == s && !s.contains('/')
}

proof fn lemma_split_without_sep(s: Seq<char>, sep: char)
    requires
        !s.contains(sep),
    ensures
        split_on(s, sep) == seq![s],
    decreases s.len(),
{
    if s.len() == 0 {
        assert(s =~= Seq::<char>::empty());
    } else {
        assert(!s.drop_last().contains(sep)) by {
            if s.drop_last().contains(sep) {
                let j = choose|j: int| 0 <= j < s.drop_last().len() && s.drop_last()[j] == sep;
                assert(s[j] == sep);
            }
        }
        lemma_split_without_sep(s.drop_last(), sep);
        assert(s.last() != sep) by {
            assert(s[s.len() - 1] == s.last());
        }
        assert(s.drop_last().push(s.last()) =~= s);
        assert(seq![s.drop_last()].update(0, s.drop_last().push(s.last())) =~= seq![s]);
    }
}

/// Between two single author names, matching goes both ways: each matches
/// the other (strictly or partially) or neither does, and a strict match
/// is exactly equality.
pub proof fn lemma_single_name_symmetry(a: Seq<char>, b: Seq<char>)
    requires
        single_name(a),
        single_name(b),
    ensures
        (classify_spec(a, b) == MatchResult::Strict) == (a == b),
        (classify_spec(b, a) == MatchResult::Strict) == (a == b),
        (classify_spec(a, b) == MatchResult::Unmatched) == (classify_spec(b, a)
            == MatchResult::Unmatched),
        (classify_spec(a, b) == MatchResult::Partial) == (classify_spec(b, a)
            == MatchResult::Partial),
{
    lemma_split_without_sep(a, '/');
    lemma_split_without_sep(b, '/');
    assert(names_of(a)[0] == a);
    assert(names_of(b)[0] == b);
    assert(some_name_is(a, b) == name_is(a, b));
    assert(some_name_is(b, a) == name_is(b, a));
    assert(some_name_overlaps(a, b) == name_overlaps(a, b));
    assert(some_name_overlaps(b, a) == name_overlaps(b, a));
}

impl SearchItem {
    /// Whether this hit's author field matches the target, strictly or partially.
    pub fn matches_author(&self, target_author: &str) -> (r: bool)
        ensures
            r == author_matches(self.authors, target_author@),
    {
        field_matches(&self.authors, target_author)
    }
}

impl FilterItem {
    /// Whether this entry's author field matches the target, strictly or partially.
    pub fn matches_author(&self, target_author: &str) -> (r: bool)
        ensures
            r == author_matches(self.authors, target_author@),
    {
        field_matches(&self.authors, target_author)
    }
}

} // verus!

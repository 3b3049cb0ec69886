//! Sorting a title's author tags by how they match the searched author.

use vstd::prelude::*;

use crate::idset::{id_set_contents, IdSet};
use crate::matcher::{classify, classify_spec, MatchResult};
use crate::models::AuthorTag;

verus! {

/// The tag IDs of a title's detail, split by how their names match the author.
#[derive(Clone, Debug)]
pub struct AuthorMatchResult {
    pub strict_ids: Vec<i64>,
    pub partial_ids: Vec<i64>,
    pub match_type: MatchResult,
}

/// `s` without repeats, each value kept where it first occurs.
pub open spec fn dedup(s: Seq<i64>) -> Seq<i64>
    decreases s.len(),
{
    if s.len() == 0 {
        Seq::<i64>::empty()
    } else {
        let d = dedup(s.drop_last());
        if d.contains(s.last()) {
            d
        } else {
            d.push(s.last())
        }
    }
}

/// How an author tag matches the target: tags without a positive ID or
/// without a name do not match at all.
pub open spec fn tag_class(t: AuthorTag, target: Seq<char>) -> MatchResult {
    match (t.tag_id, t.tag_name) {
        (Some(id), Some(name)) => if id > 0 {
            classify_spec(name@, target)
        } else {
            MatchResult::Unmatched
        },
        _ => MatchResult::Unmatched,
    }
}

/// The IDs of the tags of `tags` whose class is `c`, in order, repeats kept.
pub open spec fn ids_of_class(tags: Seq<AuthorTag>, target: Seq<char>, c: MatchResult) -> Seq<i64>
    decreases tags.len(),
{
    if tags.len() == 0 {
        Seq::<i64>::empty()
    } else {
        let rest = ids_of_class(tags.drop_last(), target, c);
        if tag_class(tags.last(), target) == c {
            rest.push(tags.last().tag_id.unwrap())
        } else {
            rest
        }
    }
}

pub open spec fn tags_of(a: Option<Vec<AuthorTag>>) -> Seq<AuthorTag> {
    match a {
        Some(v) => v@,
        None => Seq::<AuthorTag>::empty(),
    }
}

/// The class of a whole detail: strict if any tag is, else partial if any tag is.
pub open spec fn overall_class(strict: Seq<i64>, partial: Seq<i64>) -> MatchResult {
    if strict.len() > 0 {
        MatchResult::Strict
    } else if partial.len() > 0 {
        MatchResult::Partial
    } else {
        MatchResult::Unmatched
    }
}

proof fn lemma_ids_step(tags: Seq<AuthorTag>, i: int, target: Seq<char>, c: MatchResult)
    requires
        0 <= i < tags.len(),
    ensures
        ids_of_class(tags.subrange(0, i + 1), target, c) == if tag_class(tags[i], target) == c {
            ids_of_class(tags.subrange(0, i), target, c).push(tags[i].tag_id.unwrap())
        } else {
            ids_of_class(tags.subrange(0, i), target, c)
        },
{
    assert(tags.subrange(0, i + 1).drop_last() =~= tags.subrange(0, i));
    assert(tags.subrange(0, i + 1).last() == tags[i]);
}

pub proof fn lemma_dedup_push(s: Seq<i64>, v: i64)
    ensures
        dedup(s.push(v)) == if dedup(s).contains(v) {
            dedup(s)
        } else {
            dedup(s).push(v)
        },
{
    assert(s.push(v).drop_last() =~= s);
}

pub proof fn lemma_push_contains(s: Seq<i64>, v: i64)
    ensures
        forall|x: i64| s.push(v).contains(x) <==> (s.contains(x) || x == v),
{
    assert forall|x: i64| s.push(v).contains(x) <==> (s.contains(x) || x == v) by {
        if x == v {
            assert(s.push(v)[s.len() as int] == x);
        }
        if s.contains(x) {
            let j = choose|j: int| 0 <= j < s.len() && s[j] == x;
            assert(s.push(v)[j] == x);
        }
    }
}

/// Sorts the author tags of a title's detail by how they match the target
/// author: the strict IDs and the partial IDs, each without repeats and in
/// order of first occurrence.
pub fn extract_author_tags_from_detail(
    authors: &Option<Vec<AuthorTag>>,
    target_author: &str,
) -> (r: AuthorMatchResult)
    ensures
        r.strict_ids@ == dedup(ids_of_class(tags_of(*authors), target_author@, MatchResult::Strict)),
        r.partial_ids@ == dedup(
            ids_of_class(tags_of(*authors), target_author@, MatchResult::Partial),
        ),
        r.match_type == overall_class(r.strict_ids@, r.partial_ids@),
{
    let mut strict_ids: Vec<i64> = Vec::new();
    let mut partial_ids: Vec<i64> = Vec::new();
    match authors {
        None => {},
        Some(tags) => {
            let mut seen_strict = IdSet::new();
            let mut seen_partial = IdSet::new();
            let mut i: usize = 0;
            while i < tags.len()
                invariant
                    *authors == Some(*tags),
                    i <= tags@.len(),
                    strict_ids@ == dedup(
                        ids_of_class(tags@.subrange(0, i as int), target_author@, MatchResult::Strict),
                    ),
                    partial_ids@ == dedup(
                        ids_of_class(
                            tags@.subrange(0, i as int),
                            target_author@,
                            MatchResult::Partial,
                        ),
                    ),
                    forall|x: i64| id_set_contents(seen_strict).contains(x) <==> strict_ids@.contains(x),
                    forall|x: i64| id_set_contents(seen_partial).contains(x) <==> partial_ids@.contains(x),
                decreases tags@.len() - i,
            {
                let t = &tags[i];
                proof {
                    lemma_ids_step(tags@, i as int, target_author@, MatchResult::Strict);
                    lemma_ids_step(tags@, i as int, target_author@, MatchResult::Partial);
                }
                let c = match (&t.tag_id, &t.tag_name) {
                    (Some(id), Some(name)) => if *id > 0 {
                        classify(name.as_str(), target_author)
                    } else {
                        MatchResult::Unmatched
                    },
                    _ => MatchResult::Unmatched,
                };
                assert(c == tag_class(tags@[i as int], target_author@));
                if c == MatchResult::Strict {
                    let id = t.tag_id.unwrap();
                    let ghost before = strict_ids@;
                    proof {
                        lemma_dedup_push(ids_of_class(tags@.subrange(0, i as int), target_author@, c), id);
                    }
                    if seen_strict.insert(id) {
                        strict_ids.push(id);
                        proof { lemma_push_contains(before, id); }
                    }
                } else if c == MatchResult::Partial {
                    let id = t.tag_id.unwrap();
                    let ghost before = partial_ids@;
                    proof {
                        lemma_dedup_push(ids_of_class(tags@.subrange(0, i as int), target_author@, c), id);
                    }
                    if seen_partial.insert(id) {
                        partial_ids.push(id);
                        proof { lemma_push_contains(before, id); }
                    }
                }
                i = i + 1;
            }
            assert(tags@.subrange(0, tags@.len() as int) =~= tags@);
        },
    }
    let match_type = if strict_ids.len() > 0 {
        MatchResult::Strict
    } else if partial_ids.len() > 0 {
        MatchResult::Partial
    } else {
        MatchResult::Unmatched
    };
    AuthorMatchResult { strict_ids, partial_ids, match_type }
}

} // verus!

//! Merging result records without repeating a numeric ID.

use vstd::prelude::*;

use crate::idset::{id_set_contents, IdSet};
use crate::models::{parse_positive_id, positive_id, MangaRecord};
use crate::tags::lemma_push_contains;

verus! {

/// What a merger holds: the IDs taken so far and the records, in insertion order.
pub struct MergeState {
    pub ids: Seq<i64>,
    pub records: Seq<MangaRecord>,
}

/// Offer `m` under `id`: it is taken when `id` is positive and not taken yet.
pub open spec fn offer_spec(st: MergeState, id: int, m: MangaRecord) -> MergeState {
    if id > 0 && id <= i64::MAX && !st.ids.contains(id as i64) {
        MergeState { ids: st.ids.push(id as i64), records: st.records.push(m) }
    } else {
        st
    }
}

/// Offer `m` under the ID that its key stands for; a key that is not a
/// positive integer is refused.
pub open spec fn add_spec(st: MergeState, m: MangaRecord) -> MergeState {
    match positive_id(m.key@) {
        Some(v) => offer_spec(st, v, m),
        None => st,
    }
}

/// Offer each record of `items` in turn.
pub open spec fn extend_spec(st: MergeState, items: Seq<MangaRecord>) -> MergeState
    decreases items.len(),
{
    if items.len() == 0 {
        st
    } else {
        add_spec(extend_spec(st, items.drop_last()), items.last())
    }
}

/// Collects titles without repeating a numeric ID: the first record offered
/// under an ID is kept, later ones are dropped.
pub struct MangaMerger {
    seen_ids: IdSet,
    results: Vec<MangaRecord>,
    ids: Ghost<Seq<i64>>,
}

impl MangaMerger {
    /// The IDs taken, in insertion order.
    pub closed spec fn ids(&self) -> Seq<i64> {
        self.ids@
    }

    /// The records taken, in insertion order.
    pub closed spec fn records(&self) -> Seq<MangaRecord> {
        self.results@
    }

    pub open spec fn state(&self) -> MergeState {
        MergeState { ids: self.ids(), records: self.records() }
    }

    /// Each record has its ID, the IDs are positive and distinct, and the
    /// seen set holds exactly them.
    pub closed spec fn wf(&self) -> bool {
        &&& self.ids@.len() == self.results@.len()
        &&& self.ids@.no_duplicates()
        &&& forall|i: int| 0 <= i < self.ids@.len() ==> self.ids@[i] > 0
        &&& forall|x: i64| id_set_contents(self.seen_ids).contains(x) <==> self.ids@.contains(x)
    }

    pub proof fn lemma_wf_ids(&self)
        requires
            self.wf(),
        ensures
            self.ids().len() == self.records().len(),
            self.ids().no_duplicates(),
            forall|i: int| 0 <= i < self.ids().len() ==> self.ids()[i] > 0,
    {
    }

    /// An empty merger.
    pub fn new() -> (r: MangaMerger)
        ensures
            r.wf(),
            r.ids() == Seq::<i64>::empty(),
            r.records() == Seq::<MangaRecord>::empty(),
    {
        MangaMerger { seen_ids: IdSet::new(), results: Vec::new(), ids: Ghost(Seq::empty()) }
    }

    /// Take `manga` under `id` unless `id` is not positive or already taken;
    /// says whether it was taken.
    pub fn try_add(&mut self, id: i64, manga: MangaRecord) -> (r: bool)
        requires
            old(self).wf(),
        ensures
            final(self).wf(),
            r == (id > 0 && !old(self).ids().contains(id)),
            final(self).state() == offer_spec(old(self).state(), id as int, manga),
    {
        if id > 0 && !self.seen_ids.contains(id) {
            let ghost before = self.ids@;
            let ghost old_seen = id_set_contents(self.seen_ids);
            assert(forall|x: i64| old_seen.contains(x) <==> before.contains(x));
            self.seen_ids.insert(id);
            assert(id_set_contents(self.seen_ids) == old_seen.insert(id));
            self.results.push(manga);
            self.ids = Ghost(self.ids@.push(id));
            proof {
                lemma_push_contains(before, id);
                assert forall|i: int| 0 <= i < self.ids@.len() implies self.ids@[i] > 0 by {
                    if i < before.len() {
                        assert(self.ids@[i] == before[i]);
                    }
                }
                assert forall|x: i64|
                    id_set_contents(self.seen_ids).contains(x) <==> self.ids@.contains(x) by {
                    assert(self.ids@ == before.push(id));
                    assert(old_seen.insert(id).contains(x) <==> (old_seen.contains(x) || x == id));
                }
                assert forall|i: int, j: int|
                    0 <= i < self.ids@.len() && 0 <= j < self.ids@.len() && i != j implies self.ids@[i]
                    != self.ids@[j] by {
                    if i == before.len() {
                        assert(self.ids@[j] == before[j]);
                        if before[j] == id {
                            assert(before.contains(id));
                        }
                    } else if j == before.len() {
                        assert(self.ids@[i] == before[i]);
                        if before[i] == id {
                            assert(before.contains(id));
                        }
                    } else {
                        assert(self.ids@[i] == before[i]);
                        assert(self.ids@[j] == before[j]);
                    }
                }
            }
            true
        } else {
            false
        }
    }

    /// Take `manga` under the ID that its key stands for; a key that is not a
    /// positive integer, or an ID already taken, leaves the merger as it was.
    pub fn add(&mut self, manga: MangaRecord) -> (r: bool)
        requires
            old(self).wf(),
        ensures
            final(self).wf(),
            final(self).state() == add_spec(old(self).state(), manga),
            r == (final(self).records().len() > old(self).records().len()),
    {
        match parse_positive_id(manga.key.as_str()) {
            Some(id) => self.try_add(id, manga),
            None => false,
        }
    }

    /// Offer each record of `items` in turn, as `add` does.
    pub fn extend(&mut self, items: Vec<MangaRecord>)
        requires
            old(self).wf(),
        ensures
            final(self).wf(),
            final(self).state() == extend_spec(old(self).state(), items@),
    {
        let mut items = items;
        let ghost all = items@;
        let ghost start = self.state();
        let total = items.len();
        let mut k: usize = 0;
        assert(all.subrange(0, 0) =~= Seq::<MangaRecord>::empty());
        while items.len() > 0
            invariant
                self.wf(),
                k + items@.len() == all.len(),
                all.len() == total,
                items@ == all.subrange(k as int, all.len() as int),
                self.state() == extend_spec(start, all.subrange(0, k as int)),
            decreases items@.len(),
        {
            let m = items.remove(0);
            proof {
                assert(m == all[k as int]);
                assert(all.subrange(0, k + 1).drop_last() =~= all.subrange(0, k as int));
                assert(all.subrange(0, k + 1).last() == m);
                assert(items@ =~= all.subrange(k + 1, all.len() as int));
            }
            self.add(m);
            k = k + 1;
        }
        assert(all.subrange(0, all.len() as int) =~= all);
    }

    /// The records taken, in insertion order.
    pub fn finish(self) -> (r: Vec<MangaRecord>)
        ensures
            r@ == self.records(),
    {
        self.results
    }

    /// How many records were taken.
    pub fn len(&self) -> (r: usize)
        ensures
            r == self.records().len(),
    {
        self.results.len()
    }

    /// Whether no record was taken.
    pub fn is_empty(&self) -> (r: bool)
        ensures
            r == (self.records().len() == 0),
    {
        self.results.len() == 0
    }
}

proof fn lemma_offer_keeps(st: MergeState, id: int, m: MangaRecord)
    ensures
        forall|x: i64| st.ids.contains(x) ==> offer_spec(st, id, m).ids.contains(x),
        id > 0 && id <= i64::MAX ==> offer_spec(st, id, m).ids.contains(id as i64),
{
    if id > 0 && id <= i64::MAX && !st.ids.contains(id as i64) {
        lemma_push_contains(st.ids, id as i64);
    }
}

/// Once a sequence of records has been offered, every record with a valid
/// key finds its ID taken, and IDs taken before stay taken.
proof fn lemma_extend_covers(st: MergeState, items: Seq<MangaRecord>)
    ensures
        forall|x: i64| st.ids.contains(x) ==> extend_spec(st, items).ids.contains(x),
        forall|j: int|
            0 <= j < items.len() && (#[trigger] positive_id(items[j].key@)).is_some()
                ==> extend_spec(st, items).ids.contains(positive_id(items[j].key@).unwrap() as i64),
    decreases items.len(),
{
    if items.len() > 0 {
        let prev = extend_spec(st, items.drop_last());
        lemma_extend_covers(st, items.drop_last());
        let m = items.last();
        match positive_id(m.key@) {
            Some(v) => lemma_offer_keeps(prev, v, m),
            None => {},
        }
        assert forall|j: int|
            0 <= j < items.len() && (#[trigger] positive_id(items[j].key@)).is_some()
                implies extend_spec(st, items).ids.contains(
            positive_id(items[j].key@).unwrap() as i64,
        ) by {
            if j < items.len() - 1 {
                assert(items.drop_last()[j] == items[j]);
            }
        }
    }
}

/// Offering records whose IDs are all taken (or invalid) changes nothing.
proof fn lemma_extend_taken(st: MergeState, items: Seq<MangaRecord>)
    requires
        forall|j: int|
            0 <= j < items.len() && (#[trigger] positive_id(items[j].key@)).is_some()
                ==> st.ids.contains(positive_id(items[j].key@).unwrap() as i64),
    ensures
        extend_spec(st, items) == st,
    decreases items.len(),
{
    if items.len() > 0 {
        assert forall|j: int|
            0 <= j < items.drop_last().len() && (#[trigger] positive_id(
                items.drop_last()[j].key@,
            )).is_some() implies st.ids.contains(
            positive_id(items.drop_last()[j].key@).unwrap() as i64,
        ) by {
            assert(items.drop_last()[j] == items[j]);
        }
        lemma_extend_taken(st, items.drop_last());
        let m = items.last();
        assert(m == items[items.len() - 1]);
    }
}

/// Offering `a` and then `b` is offering `a + b`.
pub proof fn lemma_extend_concat(st: MergeState, a: Seq<MangaRecord>, b: Seq<MangaRecord>)
    ensures
        extend_spec(extend_spec(st, a), b) == extend_spec(st, a + b),
    decreases b.len(),
{
    if b.len() == 0 {
        assert(a + b =~= a);
    } else {
        lemma_extend_concat(st, a, b.drop_last());
        assert((a + b).drop_last() =~= a + b.drop_last());
        assert((a + b).last() == b.last());
    }
}

/// Merging is idempotent by ID: offering the same records a second time,
/// whether as a second call or appended to the first sequence, adds nothing,
/// so a record fed twice appears once.
pub proof fn lemma_extend_idempotent(st: MergeState, items: Seq<MangaRecord>)
    ensures
        extend_spec(extend_spec(st, items), items) == extend_spec(st, items),
        extend_spec(st, items + items) == extend_spec(st, items),
{
    lemma_extend_covers(st, items);
    lemma_extend_taken(extend_spec(st, items), items);
    lemma_extend_concat(st, items, items);
}

} // verus!

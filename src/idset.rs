//! A set of numeric IDs backed by `hashbrown`.

use vstd::prelude::*;

verus! {

/// A set of numeric identifiers, held in a `hashbrown::HashSet<i64>`.
#[verifier::external_body]
pub struct IdSet {
    inner: hashbrown::HashSet<i64>,
}

/// The identifiers that an `IdSet` holds.
pub uninterp spec fn id_set_contents(s: IdSet) -> Set<i64>;

impl IdSet {
    /// Relies on `hashbrown::HashSet::new`: the new set is empty.
    #[verifier::external_body]
    pub(crate) fn new() -> (r: IdSet)
        ensures
            id_set_contents(r) == Set::<i64>::empty(),
    {
        IdSet { inner: hashbrown::HashSet::new() }
    }

    /// Relies on `hashbrown::HashSet::contains`: true exactly when `id` is held.
    #[verifier::external_body]
    pub(crate) fn contains(&self, id: i64) -> (r: bool)
        ensures
            r == id_set_contents(*self).contains(id),
    {
        self.inner.contains(&id)
    }

    /// Relies on `hashbrown::HashSet::insert`: `id` is added, and the result
    /// says whether it was absent before.
    #[verifier::external_body]
    pub(crate) fn insert(&mut self, id: i64) -> (r: bool)
        ensures
            id_set_contents(*final(self)) == id_set_contents(*old(self)).insert(id),
            r == !id_set_contents(*old(self)).contains(id),
    {
        self.inner.insert(id)
    }
}

} // verus!

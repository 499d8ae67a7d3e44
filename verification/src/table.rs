use vstd::prelude::*;
use std::collections::HashMap;

verus! {

broadcast use vstd::std_specs::hash::group_hash_axioms;

/// The table of in-flight requests: a mapping from correlation id to the
/// single-use completion handle registered for that id. The table owns each
/// entry from insertion until it is taken; `take` removes atomically, so at
/// most one caller ever receives a given handle.
pub struct CorrelationTable<H> {
    entries: HashMap<u64, H>,
}

impl<H> View for CorrelationTable<H> {
    type V = Map<u64, H>;

    closed spec fn view(&self) -> Map<u64, H> {
        self.entries@
    }
}

impl<H> CorrelationTable<H> {
    /// A fresh table with no pending entries.
    pub fn new() -> (t: Self)
        ensures
            t@ == Map::<u64, H>::empty(),
    {
        CorrelationTable { entries: HashMap::new() }
    }

    /// Registers the completion handle for a correlation id. An entry
    /// already stored under the same id is replaced.
    pub fn insert(&mut self, id: u64, handle: H)
        ensures
            final(self)@ == old(self)@.insert(id, handle),
    {
        self.entries.insert(id, handle);
    }

    /// Atomically removes and returns the entry for `id`, if present.
    /// Calling it again for the same id, or for an id never inserted,
    /// returns nothing and changes nothing.
    pub fn take(&mut self, id: u64) -> (h: Option<H>)
        ensures
            final(self)@ == old(self)@.remove(id),
            h == if old(self)@.contains_key(id) {
                Some(old(self)@[id])
            } else {
                None::<H>
            },
    {
        self.entries.remove(&id)
    }

    /// The number of pending entries; diagnostic only.
    pub fn len(&self) -> (n: usize)
        ensures
            n == self@.len(),
    {
        self.entries.len()
    }
}

} // verus!

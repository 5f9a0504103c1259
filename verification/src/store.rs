//! The durable object store and its identifier allocator.
//!
//! A persistent mapping from numeric key to encoded value bytes. Once `put`
//! or `remove` returns, the mutation is recoverable after a process restart.
//! Each stored value has a declared maximum encoded size; `put` rejects an
//! oversized value before insertion, so a single entry can never outgrow its
//! backing slot. The allocator hands out strictly increasing identifiers and
//! persists the counter, so an identifier is never reused, not even across a
//! restart.

use vstd::prelude::*;
use crate::durable::{durable_cell_view, durable_map_view, DurableCell, DurableMap};

verus! {

/// The declared maximum encoded size, in bytes, of one stored value.
pub const MAX_VALUE_BYTES: usize = 256;

/// Which backing medium a store was constructed over. Selected once, at
/// construction: the durable backing recovers its contents after a process
/// restart; the ephemeral backing is for test or throwaway use only, and a
/// caller selecting it accepts data loss on restart.
#[derive(Clone, Copy, PartialEq, Eq, Structural, Debug)]
pub enum Backing {
    Ephemeral,
    Durable,
}

/// The object store: one mapping over its chosen backing.
pub struct ObjectStore {
    map: DurableMap,
    backing: Backing,
}

impl ObjectStore {
    /// The entries the store currently holds.
    pub closed spec fn contents(&self) -> Map<u64, Seq<u8>> {
        durable_map_view(self.map)
    }

    /// The backing medium this store was constructed over.
    pub closed spec fn backing(&self) -> Backing {
        self.backing
    }

    /// An empty store over a fresh region of the chosen backing.
    pub fn new_with(backing: Backing) -> (r: ObjectStore)
        ensures
            r.contents() == Map::<u64, Seq<u8>>::empty(),
            r.backing() == backing,
    {
        ObjectStore { map: DurableMap::new(), backing }
    }

    /// An empty store over the durable backing.
    pub fn new() -> (r: ObjectStore)
        ensures
            r.contents() == Map::<u64, Seq<u8>>::empty(),
            r.backing() == Backing::Durable,
    {
        ObjectStore::new_with(Backing::Durable)
    }

    /// Inserts or replaces the value under the key, if it fits the declared
    /// size bound; an oversized value is rejected before insertion and the
    /// store is unchanged. Returns whether the value was stored.
    pub fn put(&mut self, key: u64, value: Vec<u8>) -> (r: bool)
        ensures
            final(self).backing() == old(self).backing(),
            r == (value@.len() <= MAX_VALUE_BYTES),
            r ==> final(self).contents() == old(self).contents().insert(key, value@),
            !r ==> final(self).contents() == old(self).contents(),
    {
        if value.len() > MAX_VALUE_BYTES {
            return false;
        }
        self.map.insert(key, value);
        true
    }

    /// Returns a copy of the value under the key; absence is a normal
    /// outcome, not an error.
    pub fn get(&self, key: u64) -> (r: Option<Vec<u8>>)
        ensures
            match r {
                Some(v) => self.contents().contains_key(key) && v@ == self.contents()[key],
                None => !self.contents().contains_key(key),
            },
    {
        self.map.get(key)
    }

    /// Deletes the value under the key if present; removing an absent key is
    /// not an error and returns false.
    pub fn remove(&mut self, key: u64) -> (r: bool)
        ensures
            final(self).backing() == old(self).backing(),
            r == old(self).contents().contains_key(key),
            final(self).contents() == old(self).contents().remove(key),
    {
        match self.map.remove(key) {
            Some(_) => true,
            None => false,
        }
    }

    /// Every entry, in ascending key order.
    pub fn list_all(&self) -> (r: Vec<(u64, Vec<u8>)>)
        ensures
            forall|i: int|
                0 <= i < r@.len() ==> self.contents().contains_key(#[trigger] r@[i].0) && r@[i].1@
                    == self.contents()[r@[i].0],
            forall|k: u64|
                #[trigger] self.contents().contains_key(k) ==> exists|i: int|
                    0 <= i < r@.len() && #[trigger] r@[i].0 == k,
            forall|i: int, j: int| 0 <= i < j < r@.len() ==> r@[i].0 < r@[j].0,
    {
        self.map.entries()
    }

    /// Simulates a process restart. Over the durable backing, every mutation
    /// that had completed is recovered from the backing region; over the
    /// ephemeral backing the contents are forfeited, as its users accepted.
    pub fn reopen(&mut self)
        ensures
            final(self).backing() == old(self).backing(),
            old(self).backing() == Backing::Durable ==> final(self).contents() == old(
                self,
            ).contents(),
            old(self).backing() == Backing::Ephemeral ==> final(self).contents() == Map::<
                u64,
                Seq<u8>,
            >::empty(),
    {
        match self.backing {
            Backing::Durable => self.map.reopen(),
            Backing::Ephemeral => {
                self.map = DurableMap::new();
            },
        }
    }
}

/// The monotonic identifier allocator.
pub struct IdAllocator {
    cell: DurableCell,
}

impl IdAllocator {
    /// The identifier the next allocation will return.
    pub closed spec fn next_id(&self) -> u64 {
        durable_cell_view(self.cell)
    }

    /// A fresh allocator, starting at identifier 0.
    pub fn new() -> (r: IdAllocator)
        ensures
            r.next_id() == 0,
    {
        IdAllocator { cell: DurableCell::new(0) }
    }

    /// The current counter value, without allocating.
    pub fn peek(&self) -> (r: u64)
        ensures
            r == self.next_id(),
    {
        self.cell.get()
    }

    /// Allocates the next identifier: returns the current counter value and
    /// persists its successor in one non-suspending step, so no two
    /// allocations can ever return the same identifier.
    pub fn allocate(&mut self) -> (id: u64)
        requires
            old(self).next_id() < u64::MAX,
        ensures
            id == old(self).next_id(),
            final(self).next_id() == id + 1,
    {
        let current = self.cell.get();
        self.cell.set(current + 1);
        current
    }

    /// Simulates a process restart; the counter is recovered from its
    /// backing region.
    pub fn reopen(&mut self)
        ensures
            final(self).next_id() == old(self).next_id(),
    {
        self.cell.reopen()
    }
}

} // verus!

//! The restart-surviving backing medium.
//!
//! Thin trusted interface over ic-stable-structures. Each collection is
//! built over its own explicitly vector-backed memory, created privately by
//! its constructor. It is never built over the target-dependent default
//! memory: on the canister target that is the one shared stable memory, and
//! every collection would alias the same region. With a private buffer each,
//! a fresh collection really is empty and growth of one collection never
//! disturbs another, on every compilation target. Every mutation writes
//! through to that memory before it returns, which is what makes reopening
//! from the same memory — how the library models a process restart — recover
//! the contents.

use vstd::prelude::*;
use ic_stable_structures::{StableBTreeMap, StableCell, VectorMemory};

verus! {

/// A durable mapping from numeric keys to encoded byte values, backed by a
/// stable B-tree over its own memory region.
#[verifier::external_body]
pub struct DurableMap {
    map: StableBTreeMap<u64, Vec<u8>, VectorMemory>,
    memory: VectorMemory,
}

/// The entries a durable map currently holds.
pub uninterp spec fn durable_map_view(m: DurableMap) -> Map<u64, Seq<u8>>;

/// The contents of a freshly created durable map: no entries at all.
pub open spec fn no_entries() -> Map<u64, Seq<u8>> {
    Map::empty()
}

impl DurableMap {
    /// Relies on StableBTreeMap::new via init: a map over fresh memory is
    /// empty. The memory is a vector buffer created here, owned by this map
    /// alone on every target.
    #[verifier::external_body]
    pub(crate) fn new() -> (r: DurableMap)
        ensures
            durable_map_view(r) == no_entries(),
    {
        let memory = VectorMemory::default();
        DurableMap { map: StableBTreeMap::init(memory.clone()), memory }
    }

    /// Relies on StableBTreeMap::insert: inserts or replaces the value under
    /// the key and writes it through to the backing memory.
    #[verifier::external_body]
    pub(crate) fn insert(&mut self, key: u64, value: Vec<u8>)
        ensures
            durable_map_view(*final(self)) == durable_map_view(*old(self)).insert(key, value@),
    {
        self.map.insert(key, value);
    }

    /// Relies on StableBTreeMap::get: returns a copy of the value under the
    /// key, if any.
    #[verifier::external_body]
    pub(crate) fn get(&self, key: u64) -> (r: Option<Vec<u8>>)
        ensures
            match r {
                Some(v) => durable_map_view(*self).contains_key(key) && v@ == durable_map_view(
                    *self,
                )[key],
                None => !durable_map_view(*self).contains_key(key),
            },
    {
        self.map.get(&key)
    }

    /// Relies on StableBTreeMap::remove: removes and returns the value under
    /// the key, if any.
    #[verifier::external_body]
    pub(crate) fn remove(&mut self, key: u64) -> (r: Option<Vec<u8>>)
        ensures
            durable_map_view(*final(self)) == durable_map_view(*old(self)).remove(key),
            match r {
                Some(v) => durable_map_view(*old(self)).contains_key(key) && v@
                    == durable_map_view(*old(self))[key],
                None => !durable_map_view(*old(self)).contains_key(key),
            },
    {
        self.map.remove(&key)
    }

    /// Relies on StableBTreeMap::iter: yields every entry exactly once, in
    /// ascending key order.
    #[verifier::external_body]
    pub(crate) fn entries(&self) -> (r: Vec<(u64, Vec<u8>)>)
        ensures
            forall|i: int|
                0 <= i < r@.len() ==> durable_map_view(*self).contains_key(#[trigger] r@[i].0)
                    && r@[i].1@ == durable_map_view(*self)[r@[i].0],
            forall|k: u64|
                #[trigger] durable_map_view(*self).contains_key(k) ==> exists|i: int|
                    0 <= i < r@.len() && #[trigger] r@[i].0 == k,
            forall|i: int, j: int| 0 <= i < j < r@.len() ==> r@[i].0 < r@[j].0,
    {
        self.map.iter().map(|entry| entry.into_pair()).collect()
    }

    /// Simulates a process restart: drops the in-memory handle and reloads
    /// the map from its backing memory. Relies on StableBTreeMap::init: a
    /// memory that already contains a map is loaded, and every earlier
    /// mutation had been written through to it.
    #[verifier::external_body]
    pub(crate) fn reopen(&mut self)
        ensures
            durable_map_view(*final(self)) == durable_map_view(*old(self)),
    {
        self.map = StableBTreeMap::init(self.memory.clone());
    }
}

/// A durable mapping from byte-string keys to encoded byte values, backed by
/// a stable B-tree over its own memory region.
#[verifier::external_body]
pub struct DurableBlobMap {
    map: StableBTreeMap<Vec<u8>, Vec<u8>, VectorMemory>,
    memory: VectorMemory,
}

/// The entries a durable blob map currently holds.
pub uninterp spec fn blob_map_view(m: DurableBlobMap) -> Map<Seq<u8>, Seq<u8>>;

/// The contents of a freshly created durable blob map: no entries at all.
pub open spec fn no_blob_entries() -> Map<Seq<u8>, Seq<u8>> {
    Map::empty()
}

impl DurableBlobMap {
    /// Relies on StableBTreeMap::new via init: a map over fresh memory is
    /// empty. The memory is a vector buffer created here, owned by this map
    /// alone on every target.
    #[verifier::external_body]
    pub(crate) fn new() -> (r: DurableBlobMap)
        ensures
            blob_map_view(r) == no_blob_entries(),
    {
        let memory = VectorMemory::default();
        DurableBlobMap { map: StableBTreeMap::init(memory.clone()), memory }
    }

    /// Relies on StableBTreeMap::insert: inserts or replaces the value under
    /// the key and writes it through to the backing memory.
    #[verifier::external_body]
    pub(crate) fn insert(&mut self, key: Vec<u8>, value: Vec<u8>)
        ensures
            blob_map_view(*final(self)) == blob_map_view(*old(self)).insert(key@, value@),
    {
        self.map.insert(key, value);
    }

    /// Relies on StableBTreeMap::get: returns a copy of the value under the
    /// key, if any.
    #[verifier::external_body]
    pub(crate) fn get(&self, key: &[u8]) -> (r: Option<Vec<u8>>)
        ensures
            match r {
                Some(v) => blob_map_view(*self).contains_key(key@) && v@ == blob_map_view(
                    *self,
                )[key@],
                None => !blob_map_view(*self).contains_key(key@),
            },
    {
        self.map.get(&key.to_vec())
    }

    /// Simulates a process restart: drops the in-memory handle and reloads
    /// the map from its backing memory. Relies on StableBTreeMap::init: a
    /// memory that already contains a map is loaded, and every earlier
    /// mutation had been written through to it.
    #[verifier::external_body]
    pub(crate) fn reopen(&mut self)
        ensures
            blob_map_view(*final(self)) == blob_map_view(*old(self)),
    {
        self.map = StableBTreeMap::init(self.memory.clone());
    }
}

/// A durable cell holding one numeric value, backed by its own memory region.
#[verifier::external_body]
pub struct DurableCell {
    cell: StableCell<u64, VectorMemory>,
    memory: VectorMemory,
}

/// The value a durable cell currently holds.
pub uninterp spec fn durable_cell_view(c: DurableCell) -> u64;

impl DurableCell {
    /// Relies on StableCell::init: a cell over fresh memory holds the given
    /// initial value and writes it to the memory. The memory is a vector
    /// buffer created here, owned by this cell alone on every target.
    #[verifier::external_body]
    pub(crate) fn new(initial: u64) -> (r: DurableCell)
        ensures
            durable_cell_view(r) == initial,
    {
        let memory = VectorMemory::default();
        DurableCell { cell: StableCell::init(memory.clone(), initial), memory }
    }

    /// Relies on StableCell::get: returns the held value.
    #[verifier::external_body]
    pub(crate) fn get(&self) -> (r: u64)
        ensures
            r == durable_cell_view(*self),
    {
        *self.cell.get()
    }

    /// Relies on StableCell::set: writes the value through to the backing
    /// memory before updating the held value.
    #[verifier::external_body]
    pub(crate) fn set(&mut self, value: u64)
        ensures
            durable_cell_view(*final(self)) == value,
    {
        self.cell.set(value);
    }

    /// Simulates a process restart: reloads the cell from its backing
    /// memory. Relies on StableCell::init: a memory that already contains a
    /// cell yields the value last written to it.
    #[verifier::external_body]
    pub(crate) fn reopen(&mut self)
        ensures
            durable_cell_view(*final(self)) == durable_cell_view(*old(self)),
    {
        let memory = self.memory.clone();
        self.cell = StableCell::init(memory, 0);
    }
}

} // verus!

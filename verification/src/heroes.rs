//! Owner-keyed records in the durable store.
//!
//! Each record gets a strictly increasing, never reused identifier from the
//! persistent allocator. Anybody may create and read records; updating or
//! deleting one is owner-exclusive, whatever the caller's authority level.
//! Records are framed by the codec and kept in the durable object store, so
//! they and the identifier counter survive a process restart.

use vstd::prelude::*;
use crate::codec::{
    decode_hero, encode_hero, hero_encoded_len, lemma_hero_bytes_decode, spec_decode_hero,
    HeroRecord, HeroView,
};
use crate::errors::OpError;
use crate::access::can_mutate;
use crate::identity::Identity;
use crate::store::{Backing, IdAllocator, ObjectStore, MAX_VALUE_BYTES};

verus! {

/// The durable collection of owner-keyed records and its identifier
/// allocator.
pub struct HeroStore {
    store: ObjectStore,
    allocator: IdAllocator,
}

impl HeroStore {
    /// The raw encoded entries currently stored.
    pub closed spec fn contents(&self) -> Map<u64, Seq<u8>> {
        self.store.contents()
    }

    /// The identifier the next creation will assign.
    pub closed spec fn next_id(&self) -> u64 {
        self.allocator.next_id()
    }

    /// The collection sits on the durable backing, every stored entry is a
    /// well-formed record frame, and every stored identifier lies strictly
    /// below the allocator's counter.
    pub closed spec fn wf(&self) -> bool {
        &&& self.store.backing() == Backing::Durable
        &&& forall|k: u64|
            #[trigger] self.contents().contains_key(k) ==> spec_decode_hero(
                self.contents()[k],
            ) is Some
        &&& forall|k: u64| #[trigger] self.contents().contains_key(k) ==> k < self.next_id()
    }

    /// The stored records, as decoded values.
    pub open spec fn records(&self) -> Map<u64, HeroView> {
        Map::new(
            |k: u64| self.contents().contains_key(k),
            |k: u64| spec_decode_hero(self.contents()[k])->Some_0,
        )
    }

    /// An empty collection over fresh backing regions, with the identifier
    /// counter at 0.
    pub fn new() -> (r: HeroStore)
        ensures
            r.wf(),
            r.records() == Map::<u64, HeroView>::empty(),
            r.next_id() == 0,
    {
        let r = HeroStore { store: ObjectStore::new(), allocator: IdAllocator::new() };
        proof {
            assert(r.records() =~= Map::<u64, HeroView>::empty());
        }
        r
    }

    /// The identifier the next creation will assign, read off the allocator.
    pub fn next_record_id(&self) -> (r: u64)
        ensures
            r == self.next_id(),
    {
        self.allocator.peek()
    }

    /// Creates a record owned by the caller under a freshly allocated
    /// identifier. The identifier equals the current counter value, collides
    /// with no stored record, and is never handed out again. A record whose
    /// frame would exceed the declared size bound is rejected before any
    /// allocation or insertion.
    pub fn create_hero(&mut self, owner: &Identity, name: Vec<u8>, power: Vec<u8>) -> (r: Result<
        u64,
        OpError,
    >)
        requires
            old(self).wf(),
            old(self).next_id() < u64::MAX,
        ensures
            final(self).wf(),
            match r {
                Ok(id) => {
                    &&& id == old(self).next_id()
                    &&& !old(self).records().contains_key(id)
                    &&& final(self).records() == old(self).records().insert(
                        id,
                        (HeroView { owner: owner@, name: name@, power: power@ }),
                    )
                    &&& final(self).next_id() == id + 1
                    &&& hero_encoded_len(
                        (HeroView { owner: owner@, name: name@, power: power@ }),
                    ) <= MAX_VALUE_BYTES
                },
                Err(e) => {
                    &&& e == OpError::ValidationFailure
                    &&& hero_encoded_len(
                        (HeroView { owner: owner@, name: name@, power: power@ }),
                    ) > MAX_VALUE_BYTES
                    &&& *final(self) == *old(self)
                },
            },
    {
        let record = HeroRecord { owner: owner.duplicate(), name, power };
        let encoded = match encode_hero(&record) {
            Some(e) => e,
            None => {
                return Err(OpError::ValidationFailure);
            },
        };
        let id = self.allocator.allocate();
        let stored = self.store.put(id, encoded);
        proof {
            assert(stored);
            lemma_hero_bytes_decode(record@);
            assert(!old(self).contents().contains_key(id));
            assert(final(self).records() =~= old(self).records().insert(id, record@));
        }
        Ok(id)
    }

    /// Returns a copy of the record under the identifier; absence is a
    /// normal outcome.
    pub fn get_hero(&self, id: u64) -> (r: Option<HeroRecord>)
        requires
            self.wf(),
        ensures
            match r {
                Some(h) => self.records().contains_key(id) && h@ == self.records()[id],
                None => !self.records().contains_key(id),
            },
    {
        match self.store.get(id) {
            Some(bytes) => {
                match decode_hero(&bytes) {
                    Some(h) => Some(h),
                    None => {
                        // Unreachable: every stored frame parses, by wf.
                        proof {
                            assert(false);
                        }
                        None
                    },
                }
            },
            None => None,
        }
    }

    /// Every stored record, in ascending identifier order.
    pub fn get_all_heroes(&self) -> (r: Vec<(u64, HeroRecord)>)
        requires
            self.wf(),
        ensures
            forall|i: int|
                0 <= i < r@.len() ==> self.records().contains_key(#[trigger] r@[i].0) && r@[i].1@
                    == self.records()[r@[i].0],
            forall|k: u64|
                #[trigger] self.records().contains_key(k) ==> exists|i: int|
                    0 <= i < r@.len() && #[trigger] r@[i].0 == k,
            forall|i: int, j: int| 0 <= i < j < r@.len() ==> r@[i].0 < r@[j].0,
    {
        let entries = self.store.list_all();
        let n = entries.len();
        let mut result: Vec<(u64, HeroRecord)> = Vec::new();
        let mut i: usize = 0;
        while i < n
            invariant
                self.wf(),
                n == entries@.len(),
                0 <= i <= n,
                result@.len() == i,
                forall|j: int|
                    0 <= j < n ==> self.contents().contains_key(#[trigger] entries@[j].0)
                        && entries@[j].1@ == self.contents()[entries@[j].0],
                forall|j: int|
                    0 <= j < i ==> (#[trigger] result@[j]).0 == entries@[j].0 && result@[j].1@
                        == self.records()[result@[j].0],
            decreases n - i,
        {
            let key = entries[i].0;
            match decode_hero(&entries[i].1) {
                Some(h) => {
                    result.push((key, h));
                },
                None => {
                    // Unreachable: every stored frame parses, by wf.
                    proof {
                        assert(false);
                    }
                },
            }
            i += 1;
        }
        proof {
            assert forall|k: u64| #[trigger] self.records().contains_key(k) implies exists|j: int|
                0 <= j < result@.len() && #[trigger] result@[j].0 == k by {
                let j = choose|j: int| 0 <= j < entries@.len() && (#[trigger] entries@[j].0) == k;
                assert(result@[j].0 == k);
            }
        }
        result
    }

    /// Rewrites the name and power of an existing record. Owner-exclusive: a
    /// caller other than the original creator is refused, whatever its
    /// authority; ownership itself never changes. An oversized replacement is
    /// rejected before insertion. On any refusal the collection is unchanged.
    pub fn update_hero(&mut self, id: u64, caller: &Identity, name: Vec<u8>, power: Vec<u8>) -> (r:
        Result<(), OpError>)
        requires
            old(self).wf(),
        ensures
            final(self).wf(),
            final(self).next_id() == old(self).next_id(),
            match r {
                Ok(u) => {
                    &&& old(self).records().contains_key(id)
                    &&& old(self).records()[id].owner == caller@
                    &&& final(self).records() == old(self).records().insert(
                        id,
                        (HeroView {
                            owner: old(self).records()[id].owner,
                            name: name@,
                            power: power@,
                        }),
                    )
                },
                Err(e) => {
                    &&& *final(self) == *old(self)
                    &&& match e {
                        OpError::NotFound => !old(self).records().contains_key(id),
                        OpError::NotAuthorized => old(self).records().contains_key(id) && old(
                            self,
                        ).records()[id].owner != caller@,
                        OpError::ValidationFailure => {
                            &&& old(self).records().contains_key(id)
                            &&& old(self).records()[id].owner == caller@
                            &&& hero_encoded_len(
                                (HeroView {
                                    owner: old(self).records()[id].owner,
                                    name: name@,
                                    power: power@,
                                }),
                            ) > MAX_VALUE_BYTES
                        },
                        OpError::ExternalAuthorityFailure => false,
                    }
                },
            },
    {
        let existing = match self.store.get(id) {
            Some(b) => b,
            None => {
                return Err(OpError::NotFound);
            },
        };
        let current = match decode_hero(&existing) {
            Some(h) => h,
            None => {
                // Unreachable: every stored frame parses, by wf.
                proof {
                    assert(false);
                }
                return Err(OpError::NotFound);
            },
        };
        if !can_mutate(caller, &current.owner) {
            return Err(OpError::NotAuthorized);
        }
        let updated = HeroRecord { owner: current.owner, name, power };
        let encoded = match encode_hero(&updated) {
            Some(e) => e,
            None => {
                return Err(OpError::ValidationFailure);
            },
        };
        let stored = self.store.put(id, encoded);
        proof {
            assert(stored);
            lemma_hero_bytes_decode(updated@);
            assert(final(self).records() =~= old(self).records().insert(id, updated@));
        }
        Ok(())
    }

    /// Deletes an existing record. Owner-exclusive, like updating; deleting
    /// an absent identifier is reported, not an abort. On any refusal the
    /// collection is unchanged. The identifier is not reused afterwards: the
    /// allocator's counter never moves backwards.
    pub fn delete_hero(&mut self, id: u64, caller: &Identity) -> (r: Result<(), OpError>)
        requires
            old(self).wf(),
        ensures
            final(self).wf(),
            final(self).next_id() == old(self).next_id(),
            match r {
                Ok(u) => {
                    &&& old(self).records().contains_key(id)
                    &&& old(self).records()[id].owner == caller@
                    &&& final(self).records() == old(self).records().remove(id)
                },
                Err(e) => {
                    &&& *final(self) == *old(self)
                    &&& match e {
                        OpError::NotFound => !old(self).records().contains_key(id),
                        OpError::NotAuthorized => old(self).records().contains_key(id) && old(
                            self,
                        ).records()[id].owner != caller@,
                        OpError::ValidationFailure => false,
                        OpError::ExternalAuthorityFailure => false,
                    }
                },
            },
    {
        let existing = match self.store.get(id) {
            Some(b) => b,
            None => {
                return Err(OpError::NotFound);
            },
        };
        let current = match decode_hero(&existing) {
            Some(h) => h,
            None => {
                // Unreachable: every stored frame parses, by wf.
                proof {
                    assert(false);
                }
                return Err(OpError::NotFound);
            },
        };
        if !can_mutate(caller, &current.owner) {
            return Err(OpError::NotAuthorized);
        }
        self.store.remove(id);
        proof {
            assert(final(self).records() =~= old(self).records().remove(id));
        }
        Ok(())
    }

    /// Simulates a process restart: the records and the identifier counter
    /// are both recovered from their durable backing regions.
    pub fn reopen(&mut self)
        requires
            old(self).wf(),
        ensures
            final(self).wf(),
            final(self).records() == old(self).records(),
            final(self).next_id() == old(self).next_id(),
    {
        self.store.reopen();
        self.allocator.reopen();
        proof {
            assert(final(self).records() =~= old(self).records());
        }
    }
}

/// Identifier allocation is collision-free: in a well-formed collection
/// every stored identifier lies strictly below the allocator's counter, so
/// the identifier that the next creation assigns belongs to no stored
/// record.
pub proof fn lemma_fresh_id_collision_free(h: HeroStore)
    requires
        h.wf(),
    ensures
        !h.records().contains_key(h.next_id()),
{
    assert(!h.contents().contains_key(h.next_id()));
}

/// One observable step of the collection: a successful creation, which
/// assigns an identifier and a record, or a process restart.
pub ghost enum HeroStoreEvent {
    Created(u64, HeroView),
    Restarted,
}

/// What `create_hero`'s contract says of one successful creation: the
/// assigned identifier is the counter's value, the record is stored under
/// it, and the counter moves to its successor.
pub open spec fn creation_step(pre: HeroStore, post: HeroStore, id: u64, h: HeroView) -> bool {
    &&& id == pre.next_id()
    &&& post.records() == pre.records().insert(id, h)
    &&& post.next_id() == id + 1
}

/// What `reopen`'s contract says of one restart: the records and the
/// counter are both recovered unchanged.
pub open spec fn restart_step(pre: HeroStore, post: HeroStore) -> bool {
    &&& post.records() == pre.records()
    &&& post.next_id() == pre.next_id()
}

/// Whether consecutive states are related as the event says.
pub open spec fn store_step(pre: HeroStore, post: HeroStore, e: HeroStoreEvent) -> bool {
    match e {
        HeroStoreEvent::Created(id, h) => creation_step(pre, post, id, h),
        HeroStoreEvent::Restarted => restart_step(pre, post),
    }
}

/// How many of the first `i` events are creations.
pub open spec fn creations_before(events: Seq<HeroStoreEvent>, i: int) -> int
    decreases i,
{
    if i <= 0 {
        0
    } else {
        creations_before(events, i - 1) + (if events[i - 1] is Created {
            1int
        } else {
            0int
        })
    }
}

proof fn lemma_counter_counts_creations(
    states: Seq<HeroStore>,
    events: Seq<HeroStoreEvent>,
    i: int,
)
    requires
        states.len() == events.len() + 1,
        states.first().next_id() == 0,
        forall|j: int|
            0 <= j < events.len() ==> store_step(#[trigger] states[j], states[j + 1], events[j]),
        0 <= i <= events.len(),
    ensures
        states[i].next_id() == creations_before(events, i),
    decreases i,
{
    if i > 0 {
        lemma_counter_counts_creations(states, events, i - 1);
        assert(store_step(states[i - 1], states[i], events[i - 1]));
    }
}

/// Identifier allocation is strictly monotonic and collision-free. In any
/// run that starts from a fresh collection and consists of successful
/// creations and restarts, in whatever order, the k-th creation (counting
/// from zero) returns exactly the identifier k: the assigned identifiers are
/// 0, 1, 2, ... in creation order, with no gaps and no repeats, and a
/// restart never disturbs the sequence or re-issues an identifier.
pub proof fn lemma_creation_ids_sequential(states: Seq<HeroStore>, events: Seq<HeroStoreEvent>)
    requires
        states.len() == events.len() + 1,
        states.first().next_id() == 0,
        forall|j: int|
            0 <= j < events.len() ==> store_step(#[trigger] states[j], states[j + 1], events[j]),
    ensures
        forall|i: int|
            0 <= i < events.len() && events[i] is Created ==> (#[trigger] events[i])->Created_0
                == creations_before(events, i),
{
    assert forall|i: int|
        0 <= i < events.len() && events[i] is Created implies (#[trigger] events[i])->Created_0
        == creations_before(events, i) by {
        lemma_counter_counts_creations(states, events, i);
        assert(store_step(states[i], states[i + 1], events[i]));
    }
}

} // verus!

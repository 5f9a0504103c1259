//! The append-only audit log.
//!
//! Every denial and every successful sensitive operation produces exactly one
//! entry, so the log is a complete record of access attempts. Entries are
//! never mutated or removed; ordering is insertion order. Growth is unbounded
//! in this variant, a documented resource-exhaustion risk of the design.

use vstd::prelude::*;
use crate::identity::Identity;

verus! {

/// The operation an audit entry records.
#[derive(Clone, Copy, PartialEq, Eq, Structural)]
pub enum Action {
    Register,
    Login,
    Upload,
    Read,
    Update,
    Delete,
    KeyDerive,
}

/// How the recorded operation ended.
#[derive(Clone, Copy, PartialEq, Eq, Structural)]
pub enum Outcome {
    Success,
    Failure,
    Denied,
    NotFound,
}

/// The order in which log entries are retrieved.
#[derive(Clone, Copy, PartialEq, Eq, Structural)]
pub enum Order {
    /// The first entries, in insertion order.
    Oldest,
    /// The last entries, most recent first.
    Recent,
}

/// One structured audit event.
pub struct AuditEntry {
    /// Monotonic nanoseconds since an epoch, supplied by the host clock.
    pub timestamp: u64,
    /// The caller that performed the operation.
    pub actor: Identity,
    pub action: Action,
    /// Free-form context, such as the resource title or user id involved.
    pub detail: String,
    pub outcome: Outcome,
}

/// The mathematical shape of one audit event.
pub ghost struct AuditView {
    pub timestamp: u64,
    pub actor: Seq<u8>,
    pub action: Action,
    pub detail: Seq<char>,
    pub outcome: Outcome,
}

impl View for AuditEntry {
    type V = AuditView;

    open spec fn view(&self) -> AuditView {
        AuditView {
            timestamp: self.timestamp,
            actor: self.actor@,
            action: self.action,
            detail: self.detail@,
            outcome: self.outcome,
        }
    }
}

impl AuditEntry {
    /// An owned copy of this entry.
    pub fn duplicate(&self) -> (r: AuditEntry)
        ensures
            r@ == self@,
    {
        AuditEntry {
            timestamp: self.timestamp,
            actor: self.actor.duplicate(),
            action: self.action,
            detail: self.detail.clone(),
            outcome: self.outcome,
        }
    }
}

/// The append-only sequence of audit events. Ephemeral: its contents are
/// forfeited on a process restart.
pub struct AuditLog {
    entries: Vec<AuditEntry>,
}

impl View for AuditLog {
    type V = Seq<AuditView>;

    closed spec fn view(&self) -> Seq<AuditView> {
        self.entries@.map_values(|e: AuditEntry| e@)
    }
}

/// How many entries a query with the given limit returns from a log of `n`
/// entries: the limit, capped at the size of the log.
pub open spec fn query_count(limit: u64, n: nat) -> int {
    if limit as int <= n as int {
        limit as int
    } else {
        n as int
    }
}

impl AuditLog {
    /// An empty log.
    pub fn new() -> (r: AuditLog)
        ensures
            r@ == Seq::<AuditView>::empty(),
    {
        let log = AuditLog { entries: Vec::new() };
        proof {
            assert(log@ =~= Seq::<AuditView>::empty());
        }
        log
    }

    /// Appends one entry. Never fails; nothing is ever removed.
    pub fn append(&mut self, entry: AuditEntry)
        ensures
            final(self)@ == old(self)@.push(entry@),
    {
        let ghost entry_v = entry@;
        self.entries.push(entry);
        proof {
            assert(self@ =~= old(self)@.push(entry_v));
        }
    }

    /// The number of recorded entries.
    pub fn len(&self) -> (r: usize)
        ensures
            r == self@.len(),
    {
        self.entries.len()
    }

    /// Bounded, order-selectable retrieval. `Oldest` returns the first
    /// `limit` entries in insertion order; `Recent` returns the last `limit`
    /// entries, most recent first. A limit larger than the log returns the
    /// whole log; this never errors.
    pub fn query(&self, limit: u64, order: Order) -> (r: Vec<AuditEntry>)
        ensures
            r@.len() == query_count(limit, self@.len()),
            order == Order::Oldest ==> forall|i: int|
                0 <= i < r@.len() ==> (#[trigger] r@[i])@ == self@[i],
            order == Order::Recent ==> forall|i: int|
                0 <= i < r@.len() ==> (#[trigger] r@[i])@ == self@[self@.len() - 1 - i],
    {
        let n = self.entries.len();
        let count: usize = if limit <= n as u64 {
            limit as usize
        } else {
            n
        };
        let mut result: Vec<AuditEntry> = Vec::new();
        match order {
            Order::Oldest => {
                let mut i: usize = 0;
                while i < count
                    invariant
                        count <= n,
                        n == self.entries@.len(),
                        0 <= i <= count,
                        result@.len() == i,
                        forall|j: int|
                            0 <= j < i ==> (#[trigger] result@[j])@ == self@[j],
                    decreases count - i,
                {
                    result.push(self.entries[i].duplicate());
                    i += 1;
                }
            },
            Order::Recent => {
                let mut i: usize = 0;
                while i < count
                    invariant
                        count <= n,
                        n == self.entries@.len(),
                        0 <= i <= count,
                        result@.len() == i,
                        forall|j: int|
                            0 <= j < i ==> (#[trigger] result@[j])@ == self@[n - 1 - j],
                    decreases count - i,
                {
                    result.push(self.entries[n - 1 - i].duplicate());
                    i += 1;
                }
            },
        }
        result
    }
}

} // verus!

//! The identity registry.
//!
//! Maps a caller identity to a stored credential fingerprint and an integer
//! authority level. At most one record exists per identity: registering again
//! overwrites the previous record, so only the latest credentials stay
//! active. Login is a pure equality check on fingerprints; no session state
//! is ever minted. The authority level is caller-supplied at registration
//! with no validation against a trust hierarchy, a known weakness of the
//! design that is kept as specified rather than silently repaired.

use vstd::prelude::*;
use crate::digest::{compute_fingerprint, fingerprint_of};
use crate::identity::{bytes_eq, Identity};

verus! {

/// What the registry remembers of one identity.
pub ghost struct CredentialView {
    pub fingerprint: Seq<u8>,
    pub authority: u8,
}

struct CredentialRecord {
    identity: Identity,
    fingerprint: Vec<u8>,
    authority: u8,
}

closed spec fn cred_view(r: CredentialRecord) -> CredentialView {
    CredentialView { fingerprint: r.fingerprint@, authority: r.authority }
}

closed spec fn reg_map(s: Seq<CredentialRecord>) -> Map<Seq<u8>, CredentialView>
    decreases s.len(),
{
    if s.len() == 0 {
        Map::empty()
    } else {
        reg_map(s.drop_last()).insert(s.last().identity@, cred_view(s.last()))
    }
}

spec fn unique_identities(s: Seq<CredentialRecord>) -> bool {
    forall|i: int, j: int|
        0 <= i < s.len() && 0 <= j < s.len() && i != j ==> (#[trigger] s[i].identity@)
            != (#[trigger] s[j].identity@)
}

proof fn lemma_reg_map_contains(s: Seq<CredentialRecord>, k: Seq<u8>)
    ensures
        reg_map(s).contains_key(k) <==> (exists|i: int|
            0 <= i < s.len() && (#[trigger] s[i].identity@) == k),
    decreases s.len(),
{
    if s.len() == 0 {
    } else {
        lemma_reg_map_contains(s.drop_last(), k);
        if s.last().identity@ == k {
            assert(s[s.len() - 1].identity@ == k);
        } else {
            if exists|i: int| 0 <= i < s.len() && (#[trigger] s[i].identity@) == k {
                let i = choose|i: int| 0 <= i < s.len() && (#[trigger] s[i].identity@) == k;
                assert(i < s.len() - 1);
                assert(s.drop_last()[i] == s[i]);
            }
            if exists|i: int| 0 <= i < s.drop_last().len() && (#[trigger] s.drop_last()[i].identity@)
                == k {
                let i = choose|i: int|
                    0 <= i < s.drop_last().len() && (#[trigger] s.drop_last()[i].identity@) == k;
                assert(s[i].identity@ == k);
            }
        }
    }
}

proof fn lemma_reg_map_index(s: Seq<CredentialRecord>, i: int)
    requires
        unique_identities(s),
        0 <= i < s.len(),
    ensures
        reg_map(s).contains_key(s[i].identity@),
        reg_map(s)[s[i].identity@] == cred_view(s[i]),
    decreases s.len(),
{
    if i == s.len() - 1 {
    } else {
        assert(unique_identities(s.drop_last())) by {
            assert(forall|p: int, q: int|
                0 <= p < s.drop_last().len() && 0 <= q < s.drop_last().len() && p != q
                    ==> (#[trigger] s.drop_last()[p].identity@)
                    != (#[trigger] s.drop_last()[q].identity@)) by {
                assert(forall|p: int| 0 <= p < s.drop_last().len() ==> #[trigger] s.drop_last()[p]
                    == s[p]);
            }
        }
        assert(s.drop_last()[i] == s[i]);
        lemma_reg_map_index(s.drop_last(), i);
        assert(s.last().identity@ != s[i].identity@);
    }
}

proof fn lemma_reg_map_update(s: Seq<CredentialRecord>, i: int, r: CredentialRecord)
    requires
        unique_identities(s),
        0 <= i < s.len(),
        r.identity@ == s[i].identity@,
    ensures
        reg_map(s.update(i, r)) == reg_map(s).insert(r.identity@, cred_view(r)),
    decreases s.len(),
{
    let t = s.update(i, r);
    if i == s.len() - 1 {
        assert(t.drop_last() =~= s.drop_last());
        assert(t.last() == r);
        assert(reg_map(t) =~= reg_map(s).insert(r.identity@, cred_view(r)));
    } else {
        assert(unique_identities(s.drop_last())) by {
            assert(forall|p: int| 0 <= p < s.drop_last().len() ==> #[trigger] s.drop_last()[p]
                == s[p]);
        }
        assert(s.drop_last()[i] == s[i]);
        assert(t.drop_last() =~= s.drop_last().update(i, r));
        assert(t.last() == s.last());
        lemma_reg_map_update(s.drop_last(), i, r);
        assert(s.last().identity@ != r.identity@);
        assert(reg_map(t) =~= reg_map(s).insert(r.identity@, cred_view(r)));
    }
}

/// The registry of caller credentials. Ephemeral: its contents are forfeited
/// on a process restart.
pub struct Registry {
    records: Vec<CredentialRecord>,
}

impl View for Registry {
    type V = Map<Seq<u8>, CredentialView>;

    closed spec fn view(&self) -> Map<Seq<u8>, CredentialView> {
        reg_map(self.records@)
    }
}

impl Registry {
    /// At most one record per identity.
    pub closed spec fn wf(&self) -> bool {
        unique_identities(self.records@)
    }

    /// An empty registry.
    pub fn new() -> (r: Registry)
        ensures
            r.wf(),
            r@ == Map::<Seq<u8>, CredentialView>::empty(),
    {
        Registry { records: Vec::new() }
    }

    fn find_index(&self, identity: &Identity) -> (r: Option<usize>)
        ensures
            match r {
                Some(i) => i < self.records@.len() && self.records@[i as int].identity@
                    == identity@,
                None => forall|j: int|
                    0 <= j < self.records@.len() ==> (#[trigger] self.records@[j].identity@)
                        != identity@,
            },
    {
        let n = self.records.len();
        let mut i: usize = 0;
        while i < n
            invariant
                n == self.records@.len(),
                0 <= i <= n,
                forall|j: int|
                    0 <= j < i ==> (#[trigger] self.records@[j].identity@) != identity@,
            decreases n - i,
        {
            if bytes_eq(self.records[i].identity.bytes(), identity.bytes()) {
                return Some(i);
            }
            i += 1;
        }
        None
    }

    /// Registers an identity, overwriting any prior record for it. Always
    /// succeeds; the stored fingerprint is a digest, never the secret.
    pub fn register_user(&mut self, identity: &Identity, user_id: &str, user_pw: &str, user_authority: u8)
        requires
            old(self).wf(),
        ensures
            final(self).wf(),
            final(self)@ == old(self)@.insert(
                identity@,
                (CredentialView {
                    fingerprint: fingerprint_of(identity@, user_id@, user_pw@),
                    authority: user_authority,
                }),
            ),
    {
        let fingerprint = compute_fingerprint(identity, user_id, user_pw);
        let record = CredentialRecord {
            identity: identity.duplicate(),
            fingerprint,
            authority: user_authority,
        };
        match self.find_index(identity) {
            Some(i) => {
                let ghost old_records = self.records@;
                self.records.set(i, record);
                proof {
                    lemma_reg_map_update(
                        old_records,
                        i as int,
                        self.records@[i as int],
                    );
                    assert(unique_identities(self.records@)) by {
                        assert(forall|p: int|
                            0 <= p < self.records@.len() ==> (#[trigger] self.records@[p].identity@)
                                == old_records[p].identity@);
                    }
                }
            },
            None => {
                let ghost old_records = self.records@;
                self.records.push(record);
                proof {
                    assert(self.records@.drop_last() =~= old_records);
                    assert(unique_identities(self.records@)) by {
                        assert(forall|p: int|
                            0 <= p < old_records.len() ==> #[trigger] self.records@[p]
                                == old_records[p]);
                    }
                }
            },
        }
    }

    /// Pure lookup: whether the identity has a credential record. No side
    /// effect, so clients may poll it before logging in.
    pub fn check_user_registered(&self, identity: &Identity) -> (r: bool)
        ensures
            r == self@.contains_key(identity@),
    {
        proof {
            lemma_reg_map_contains(self.records@, identity@);
        }
        match self.find_index(identity) {
            Some(_) => true,
            None => false,
        }
    }

    /// Verifies supplied credentials: true exactly when the identity is
    /// registered and the recomputed fingerprint equals the stored one.
    pub fn login(&self, identity: &Identity, user_id: &str, user_pw: &str) -> (r: bool)
        requires
            self.wf(),
        ensures
            r == (self@.contains_key(identity@) && self@[identity@].fingerprint
                == fingerprint_of(identity@, user_id@, user_pw@)),
    {
        proof {
            lemma_reg_map_contains(self.records@, identity@);
        }
        match self.find_index(identity) {
            Some(i) => {
                proof {
                    lemma_reg_map_index(self.records@, i as int);
                }
                let supplied = compute_fingerprint(identity, user_id, user_pw);
                bytes_eq(&self.records[i].fingerprint, &supplied)
            },
            None => false,
        }
    }

    /// The authority level of an identity; an unregistered caller has none.
    pub fn authority_of(&self, identity: &Identity) -> (r: Option<u8>)
        requires
            self.wf(),
        ensures
            match r {
                Some(a) => self@.contains_key(identity@) && a == self@[identity@].authority,
                None => !self@.contains_key(identity@),
            },
    {
        proof {
            lemma_reg_map_contains(self.records@, identity@);
        }
        match self.find_index(identity) {
            Some(i) => {
                proof {
                    lemma_reg_map_index(self.records@, i as int);
                }
                Some(self.records[i].authority)
            },
            None => None,
        }
    }
}

/// Registration is idempotent per identity: registering the same identity
/// twice, with whatever credentials, leaves exactly the record of the second
/// registration active, as if the first had never happened.
pub proof fn lemma_register_idempotent(
    m: Map<Seq<u8>, CredentialView>,
    identity: Seq<u8>,
    first: CredentialView,
    second: CredentialView,
)
    ensures
        m.insert(identity, first).insert(identity, second) == m.insert(identity, second),
        m.insert(identity, first).insert(identity, second)[identity] == second,
{
    assert(m.insert(identity, first).insert(identity, second) =~= m.insert(identity, second));
}

} // verus!

//! The boundary operations, as one system.
//!
//! One process-wide instance owns the identity registry, the named-resource
//! store, the durable record collection and the audit log, and threads the
//! same caller identity through storage, access control and key derivation.
//! The caller identity and the clock reading are supplied by the host
//! transport layer with every call; neither is something a caller can forge
//! here. Every denial and every successful sensitive operation appends
//! exactly one audit entry; pure lookups append none.

use vstd::prelude::*;
use crate::access::spec_can_read;
use crate::audit::{Action, AuditEntry, AuditLog, AuditView, Order, Outcome, query_count};
use crate::codec::{hero_encoded_len, HeroRecord, HeroView};
use crate::digest::{fingerprint_of, hex_of};
use vstd::utf8::encode_utf8;
use crate::errors::OpError;
use crate::files::{FileStore, FileView, ReadOutcome};
use crate::heroes::HeroStore;
use crate::store::Backing;
use crate::identity::Identity;
use crate::registry::{CredentialView, Registry};
use crate::store::MAX_VALUE_BYTES;
use crate::vetkd::{build_key_request, complete_key_derivation, derivation_path_of, KeyRequest};

verus! {

/// The caller's authority level under a registry state: none while
/// unregistered, which fails every read gate.
pub open spec fn authority_under(
    registry: Map<Seq<u8>, CredentialView>,
    identity: Seq<u8>,
) -> Option<u8> {
    if registry.contains_key(identity) {
        Some(registry[identity].authority)
    } else {
        None
    }
}

/// The audit tag of a gated read's result.
pub open spec fn read_outcome_tag(r: ReadOutcome) -> Outcome {
    match r {
        ReadOutcome::Granted(payload) => Outcome::Success,
        ReadOutcome::Denied => Outcome::Denied,
        ReadOutcome::NotFound => Outcome::NotFound,
    }
}

/// The audit tag of a record operation's result.
pub open spec fn op_outcome_tag(e: OpError) -> Outcome {
    match e {
        OpError::NotFound => Outcome::NotFound,
        OpError::NotAuthorized => Outcome::Denied,
        OpError::ValidationFailure => Outcome::Failure,
        OpError::ExternalAuthorityFailure => Outcome::Failure,
    }
}

/// The process-wide system state.
pub struct System {
    pub registry: Registry,
    pub files: FileStore,
    pub heroes: HeroStore,
    pub log: AuditLog,
}

impl System {
    /// Every collection is well formed.
    pub open spec fn wf(&self) -> bool {
        &&& self.registry.wf()
        &&& self.files.wf()
        &&& self.files.backing() == Backing::Durable
        &&& self.heroes.wf()
    }

    /// A fresh system: empty collections, the identifier counter at 0, and
    /// an empty audit log.
    pub fn new() -> (r: System)
        ensures
            r.wf(),
            r.registry@ == Map::<Seq<u8>, CredentialView>::empty(),
            r.files@ == Map::<Seq<u8>, FileView>::empty(),
            r.heroes.records() == Map::<u64, HeroView>::empty(),
            r.heroes.next_id() == 0,
            r.log@ == Seq::<AuditView>::empty(),
    {
        System {
            registry: Registry::new(),
            files: FileStore::new(),
            heroes: HeroStore::new(),
            log: AuditLog::new(),
        }
    }

    /// Registers the caller, overwriting any prior record for that identity,
    /// and appends one audit entry. Always succeeds.
    pub fn register_user(
        &mut self,
        identity: &Identity,
        user_id: &str,
        user_pw: &str,
        user_authority: u8,
        now: u64,
    )
        requires
            old(self).wf(),
        ensures
            final(self).wf(),
            final(self).registry@ == old(self).registry@.insert(
                identity@,
                (CredentialView {
                    fingerprint: fingerprint_of(identity@, user_id@, user_pw@),
                    authority: user_authority,
                }),
            ),
            final(self).files == old(self).files,
            final(self).heroes == old(self).heroes,
            final(self).log@ == old(self).log@.push(
                (AuditView {
                    timestamp: now,
                    actor: identity@,
                    action: Action::Register,
                    detail: user_id@,
                    outcome: Outcome::Success,
                }),
            ),
    {
        self.registry.register_user(identity, user_id, user_pw, user_authority);
        self.log.append(
            AuditEntry {
                timestamp: now,
                actor: identity.duplicate(),
                action: Action::Register,
                detail: user_id.to_owned(),
                outcome: Outcome::Success,
            },
        );
    }

    /// Pure lookup: whether the identity has a credential record. No audit
    /// entry, so clients may poll it freely before logging in.
    pub fn check_user_registered(&self, identity: &Identity) -> (r: bool)
        ensures
            r == self.registry@.contains_key(identity@),
    {
        self.registry.check_user_registered(identity)
    }

    /// Verifies the supplied credentials against the stored fingerprint and
    /// appends one audit entry tagged with the outcome. True exactly when
    /// the identity is registered and the recomputed fingerprint matches.
    pub fn login(&mut self, identity: &Identity, user_id: &str, user_pw: &str, now: u64) -> (r:
        bool)
        requires
            old(self).wf(),
        ensures
            final(self).wf(),
            r == (old(self).registry@.contains_key(identity@) && old(
                self,
            ).registry@[identity@].fingerprint == fingerprint_of(identity@, user_id@, user_pw@)),
            final(self).registry == old(self).registry,
            final(self).files == old(self).files,
            final(self).heroes == old(self).heroes,
            final(self).log@ == old(self).log@.push(
                (AuditView {
                    timestamp: now,
                    actor: identity@,
                    action: Action::Login,
                    detail: user_id@,
                    outcome: (if r {
                        Outcome::Success
                    } else {
                        Outcome::Failure
                    }),
                }),
            ),
    {
        let ok = self.registry.login(identity, user_id, user_pw);
        self.log.append(
            AuditEntry {
                timestamp: now,
                actor: identity.duplicate(),
                action: Action::Login,
                detail: user_id.to_owned(),
                outcome: if ok {
                    Outcome::Success
                } else {
                    Outcome::Failure
                },
            },
        );
        ok
    }

    /// Stores a resource under a title, replacing any previous record for
    /// that title, and appends one audit entry. Always succeeds.
    pub fn upload_encrypted_file(
        &mut self,
        title: &str,
        content: Vec<u8>,
        file_authority: u8,
        owner: &Identity,
        now: u64,
    )
        requires
            old(self).wf(),
            owner@.len() <= 255,
        ensures
            final(self).wf(),
            final(self).files@ == old(self).files@.insert(
                encode_utf8(title@),
                (FileView { owner: owner@, payload: content@, required_authority: file_authority }),
            ),
            final(self).registry == old(self).registry,
            final(self).heroes == old(self).heroes,
            final(self).log@ == old(self).log@.push(
                (AuditView {
                    timestamp: now,
                    actor: owner@,
                    action: Action::Upload,
                    detail: title@,
                    outcome: Outcome::Success,
                }),
            ),
    {
        self.files.upload(title, content, file_authority, owner);
        self.log.append(
            AuditEntry {
                timestamp: now,
                actor: owner.duplicate(),
                action: Action::Upload,
                detail: title.to_owned(),
                outcome: Outcome::Success,
            },
        );
    }

    /// The historical name for uploading a resource; behaves exactly like
    /// `upload_encrypted_file`.
    pub fn upload_file(
        &mut self,
        title: &str,
        content: Vec<u8>,
        file_authority: u8,
        owner: &Identity,
        now: u64,
    )
        requires
            old(self).wf(),
            owner@.len() <= 255,
        ensures
            final(self).wf(),
            final(self).files@ == old(self).files@.insert(
                encode_utf8(title@),
                (FileView { owner: owner@, payload: content@, required_authority: file_authority }),
            ),
            final(self).registry == old(self).registry,
            final(self).heroes == old(self).heroes,
            final(self).log@ == old(self).log@.push(
                (AuditView {
                    timestamp: now,
                    actor: owner@,
                    action: Action::Upload,
                    detail: title@,
                    outcome: Outcome::Success,
                }),
            ),
    {
        self.upload_encrypted_file(title, content, file_authority, owner, now)
    }

    /// A gated read of a named resource, appending one audit entry tagged
    /// with the outcome. The caller's registered authority must sit at or
    /// above the level the resource requires; an unregistered caller is
    /// denied; an absent title is reported as such, distinguishable from a
    /// denial and from an empty payload.
    pub fn read_file(&mut self, title: &str, identity: &Identity, now: u64) -> (r: ReadOutcome)
        requires
            old(self).wf(),
        ensures
            final(self).wf(),
            final(self).registry == old(self).registry,
            final(self).files == old(self).files,
            final(self).heroes == old(self).heroes,
            !old(self).files@.contains_key(encode_utf8(title@)) ==> r is NotFound,
            old(self).files@.contains_key(encode_utf8(title@)) && !spec_can_read(
                authority_under(old(self).registry@, identity@),
                old(self).files@[encode_utf8(title@)].required_authority,
            ) ==> r is Denied,
            old(self).files@.contains_key(encode_utf8(title@)) && spec_can_read(
                authority_under(old(self).registry@, identity@),
                old(self).files@[encode_utf8(title@)].required_authority,
            ) ==> (r matches ReadOutcome::Granted(payload) && payload@
                == old(self).files@[encode_utf8(title@)].payload),
            final(self).log@ == old(self).log@.push(
                (AuditView {
                    timestamp: now,
                    actor: identity@,
                    action: Action::Read,
                    detail: title@,
                    outcome: read_outcome_tag(r),
                }),
            ),
    {
        let authority = self.registry.authority_of(identity);
        let outcome = self.files.read(title, authority);
        let tag = match &outcome {
            ReadOutcome::Granted(_) => Outcome::Success,
            ReadOutcome::Denied => Outcome::Denied,
            ReadOutcome::NotFound => Outcome::NotFound,
        };
        self.log.append(
            AuditEntry {
                timestamp: now,
                actor: identity.duplicate(),
                action: Action::Read,
                detail: title.to_owned(),
                outcome: tag,
            },
        );
        outcome
    }

    /// Bounded, order-selectable retrieval of the audit log. A pure lookup:
    /// no audit entry of its own.
    pub fn read_logs(&self, limit: u64, order: Order) -> (r: Vec<AuditEntry>)
        ensures
            r@.len() == query_count(limit, self.log@.len()),
            order == Order::Oldest ==> forall|i: int|
                0 <= i < r@.len() ==> (#[trigger] r@[i])@ == self.log@[i],
            order == Order::Recent ==> forall|i: int|
                0 <= i < r@.len() ==> (#[trigger] r@[i])@ == self.log@[self.log@.len() - 1 - i],
    {
        self.log.query(limit, order)
    }

    /// Creates a record owned by the caller under a freshly allocated,
    /// never reused identifier, and appends one audit entry. An oversized
    /// record is rejected before allocation or insertion.
    pub fn create_hero(&mut self, caller: &Identity, name: Vec<u8>, power: Vec<u8>, now: u64) -> (r:
        Result<u64, OpError>)
        requires
            old(self).wf(),
            old(self).heroes.next_id() < u64::MAX,
        ensures
            final(self).wf(),
            final(self).registry == old(self).registry,
            final(self).files == old(self).files,
            match r {
                Ok(id) => {
                    &&& id == old(self).heroes.next_id()
                    &&& !old(self).heroes.records().contains_key(id)
                    &&& final(self).heroes.records() == old(self).heroes.records().insert(
                        id,
                        (HeroView { owner: caller@, name: name@, power: power@ }),
                    )
                    &&& final(self).heroes.next_id() == id + 1
                },
                Err(e) => {
                    &&& e == OpError::ValidationFailure
                    &&& hero_encoded_len((HeroView { owner: caller@, name: name@, power: power@ }))
                        > MAX_VALUE_BYTES
                    &&& final(self).heroes == old(self).heroes
                },
            },
            final(self).log@ == old(self).log@.push(
                (AuditView {
                    timestamp: now,
                    actor: caller@,
                    action: Action::Upload,
                    detail: Seq::<char>::empty(),
                    outcome: (match r {
                        Ok(id) => Outcome::Success,
                        Err(e) => op_outcome_tag(e),
                    }),
                }),
            ),
    {
        let result = self.heroes.create_hero(caller, name, power);
        let tag = match &result {
            Ok(_) => Outcome::Success,
            Err(_) => Outcome::Failure,
        };
        self.log.append(
            AuditEntry {
                timestamp: now,
                actor: caller.duplicate(),
                action: Action::Upload,
                detail: String::new(),
                outcome: tag,
            },
        );
        result
    }

    /// Returns a copy of the record under the identifier. A pure lookup: no
    /// audit entry.
    pub fn get_hero(&self, id: u64) -> (r: Option<HeroRecord>)
        requires
            self.wf(),
        ensures
            match r {
                Some(h) => self.heroes.records().contains_key(id) && h@
                    == self.heroes.records()[id],
                None => !self.heroes.records().contains_key(id),
            },
    {
        self.heroes.get_hero(id)
    }

    /// Every stored record, in ascending identifier order. A pure lookup: no
    /// audit entry.
    pub fn get_all_heroes(&self) -> (r: Vec<(u64, HeroRecord)>)
        requires
            self.wf(),
        ensures
            forall|i: int|
                0 <= i < r@.len() ==> self.heroes.records().contains_key(#[trigger] r@[i].0)
                    && r@[i].1@ == self.heroes.records()[r@[i].0],
            forall|k: u64|
                #[trigger] self.heroes.records().contains_key(k) ==> exists|i: int|
                    0 <= i < r@.len() && #[trigger] r@[i].0 == k,
            forall|i: int, j: int| 0 <= i < j < r@.len() ==> r@[i].0 < r@[j].0,
    {
        self.heroes.get_all_heroes()
    }

    /// Rewrites the name and power of an existing record, owner-exclusively,
    /// and appends one audit entry tagged with the outcome.
    pub fn update_hero(
        &mut self,
        id: u64,
        caller: &Identity,
        name: Vec<u8>,
        power: Vec<u8>,
        now: u64,
    ) -> (r: Result<(), OpError>)
        requires
            old(self).wf(),
        ensures
            final(self).wf(),
            final(self).registry == old(self).registry,
            final(self).files == old(self).files,
            final(self).heroes.next_id() == old(self).heroes.next_id(),
            match r {
                Ok(u) => {
                    &&& old(self).heroes.records().contains_key(id)
                    &&& old(self).heroes.records()[id].owner == caller@
                    &&& final(self).heroes.records() == old(self).heroes.records().insert(
                        id,
                        (HeroView {
                            owner: old(self).heroes.records()[id].owner,
                            name: name@,
                            power: power@,
                        }),
                    )
                },
                Err(e) => {
                    &&& final(self).heroes == old(self).heroes
                    &&& match e {
                        OpError::NotFound => !old(self).heroes.records().contains_key(id),
                        OpError::NotAuthorized => old(self).heroes.records().contains_key(id)
                            && old(self).heroes.records()[id].owner != caller@,
                        OpError::ValidationFailure => {
                            &&& old(self).heroes.records().contains_key(id)
                            &&& old(self).heroes.records()[id].owner == caller@
                            &&& hero_encoded_len(
                                (HeroView {
                                    owner: old(self).heroes.records()[id].owner,
                                    name: name@,
                                    power: power@,
                                }),
                            ) > MAX_VALUE_BYTES
                        },
                        OpError::ExternalAuthorityFailure => false,
                    }
                },
            },
            final(self).log@ == old(self).log@.push(
                (AuditView {
                    timestamp: now,
                    actor: caller@,
                    action: Action::Update,
                    detail: Seq::<char>::empty(),
                    outcome: (match r {
                        Ok(u) => Outcome::Success,
                        Err(e) => op_outcome_tag(e),
                    }),
                }),
            ),
    {
        let result = self.heroes.update_hero(id, caller, name, power);
        let tag = match &result {
            Ok(_) => Outcome::Success,
            Err(e) => match e {
                OpError::NotFound => Outcome::NotFound,
                OpError::NotAuthorized => Outcome::Denied,
                OpError::ValidationFailure => Outcome::Failure,
                OpError::ExternalAuthorityFailure => Outcome::Failure,
            },
        };
        self.log.append(
            AuditEntry {
                timestamp: now,
                actor: caller.duplicate(),
                action: Action::Update,
                detail: String::new(),
                outcome: tag,
            },
        );
        result
    }

    /// Deletes an existing record, owner-exclusively, and appends one audit
    /// entry tagged with the outcome.
    pub fn delete_hero(&mut self, id: u64, caller: &Identity, now: u64) -> (r: Result<
        (),
        OpError,
    >)
        requires
            old(self).wf(),
        ensures
            final(self).wf(),
            final(self).registry == old(self).registry,
            final(self).files == old(self).files,
            final(self).heroes.next_id() == old(self).heroes.next_id(),
            match r {
                Ok(u) => {
                    &&& old(self).heroes.records().contains_key(id)
                    &&& old(self).heroes.records()[id].owner == caller@
                    &&& final(self).heroes.records() == old(self).heroes.records().remove(id)
                },
                Err(e) => {
                    &&& final(self).heroes == old(self).heroes
                    &&& match e {
                        OpError::NotFound => !old(self).heroes.records().contains_key(id),
                        OpError::NotAuthorized => old(self).heroes.records().contains_key(id)
                            && old(self).heroes.records()[id].owner != caller@,
                        OpError::ValidationFailure => false,
                        OpError::ExternalAuthorityFailure => false,
                    }
                },
            },
            final(self).log@ == old(self).log@.push(
                (AuditView {
                    timestamp: now,
                    actor: caller@,
                    action: Action::Delete,
                    detail: Seq::<char>::empty(),
                    outcome: (match r {
                        Ok(u) => Outcome::Success,
                        Err(e) => op_outcome_tag(e),
                    }),
                }),
            ),
    {
        let result = self.heroes.delete_hero(id, caller);
        let tag = match &result {
            Ok(_) => Outcome::Success,
            Err(e) => match e {
                OpError::NotFound => Outcome::NotFound,
                OpError::NotAuthorized => Outcome::Denied,
                OpError::ValidationFailure => Outcome::Failure,
                OpError::ExternalAuthorityFailure => Outcome::Failure,
            },
        };
        self.log.append(
            AuditEntry {
                timestamp: now,
                actor: caller.duplicate(),
                action: Action::Delete,
                detail: String::new(),
                outcome: tag,
            },
        );
        result
    }

    /// Builds the outbound key-derivation request for the caller: the
    /// derivation path is scoped to the caller's identity, the public key is
    /// carried unchanged. The host performs the suspending call to the
    /// external authority and hands the reply to
    /// `settle_key_derivation`.
    pub fn begin_key_derivation(&self, caller: &Identity, public_key: Vec<u8>) -> (r: KeyRequest)
        ensures
            r.derivation_path@ == derivation_path_of(caller@),
            r.public_key@ == public_key@,
    {
        build_key_request(caller, public_key)
    }

    /// Turns the authority's reply into the caller-visible result and
    /// appends one audit entry tagged with the outcome: the wrapped key,
    /// hex-encoded, or a typed failure the caller may retry. The reply is
    /// never stored: every derivation call starts afresh.
    pub fn settle_key_derivation(&mut self, caller: &Identity, reply: Option<Vec<u8>>, now: u64) -> (r:
        Result<String, OpError>)
        requires
            old(self).wf(),
        ensures
            final(self).wf(),
            final(self).registry == old(self).registry,
            final(self).files == old(self).files,
            final(self).heroes == old(self).heroes,
            match reply {
                Some(bytes) => r matches Ok(encoded) && encoded@ == hex_of(bytes@),
                None => r matches Err(e) && e == OpError::ExternalAuthorityFailure,
            },
            final(self).log@ == old(self).log@.push(
                (AuditView {
                    timestamp: now,
                    actor: caller@,
                    action: Action::KeyDerive,
                    detail: Seq::<char>::empty(),
                    outcome: (if reply is Some {
                        Outcome::Success
                    } else {
                        Outcome::Failure
                    }),
                }),
            ),
    {
        let tag = match &reply {
            Some(_) => Outcome::Success,
            None => Outcome::Failure,
        };
        let result = complete_key_derivation(reply);
        self.log.append(
            AuditEntry {
                timestamp: now,
                actor: caller.duplicate(),
                action: Action::KeyDerive,
                detail: String::new(),
                outcome: tag,
            },
        );
        result
    }

    /// Simulates a process restart: the stored resources, the durable record
    /// collection and its identifier counter are recovered; the registry and
    /// the audit log, being ephemeral, start empty again.
    pub fn restart(&mut self)
        requires
            old(self).wf(),
        ensures
            final(self).wf(),
            final(self).registry@ == Map::<Seq<u8>, CredentialView>::empty(),
            final(self).files@ == old(self).files@,
            final(self).log@ == Seq::<AuditView>::empty(),
            final(self).heroes.records() == old(self).heroes.records(),
            final(self).heroes.next_id() == old(self).heroes.next_id(),
    {
        self.registry = Registry::new();
        self.files.reopen();
        self.log = AuditLog::new();
        self.heroes.reopen();
    }
}

} // verus!

//! Key-derivation coordination.
//!
//! A caller obtains a symmetric key derived by a remote authority, wrapped to
//! the caller's own transport public key. This module does the decision work
//! around that suspension point: it builds the outbound request, scoped to
//! the caller's identity through the derivation path, and it turns the
//! authority's reply — or its absence — into the caller-visible result. The
//! request is idempotent and side-effect free, so an abandoned duplicate in
//! flight is harmless. No wrapped key is ever cached or stored: every call
//! re-derives, and the reply is a transient per-call value.

use vstd::prelude::*;
use crate::digest::{bytes_to_hex, hex_of};
use crate::errors::OpError;
use crate::identity::{copy_bytes, Identity};

verus! {

/// The derivation path that scopes a request to one caller: the identity's
/// own bytes, so no two distinct identities can ever derive the same key
/// material, even with the same public key.
pub open spec fn derivation_path_of(identity: Seq<u8>) -> Seq<u8> {
    identity
}

/// One outbound request to the external key-derivation authority.
pub struct KeyRequest {
    /// The caller-scoped derivation path.
    pub derivation_path: Vec<u8>,
    /// The caller's transport public key, carried unchanged.
    pub public_key: Vec<u8>,
}

/// Builds the request for one caller.
pub fn build_key_request(caller: &Identity, public_key: Vec<u8>) -> (r: KeyRequest)
    ensures
        r.derivation_path@ == derivation_path_of(caller@),
        r.public_key@ == public_key@,
{
    KeyRequest { derivation_path: copy_bytes(caller.bytes()), public_key }
}

/// Key-derivation scoping: two distinct identities always get distinct
/// derivation paths, whatever public keys they supply.
pub proof fn lemma_derivation_paths_distinct(a: Seq<u8>, b: Seq<u8>)
    requires
        a != b,
    ensures
        derivation_path_of(a) != derivation_path_of(b),
{
}

/// Turns the authority's reply into the caller-visible result: wrapped key
/// bytes are hex-encoded for transport, and an absent or failed reply
/// becomes a typed failure so that the caller can retry with backoff.
pub fn complete_key_derivation(reply: Option<Vec<u8>>) -> (r: Result<String, OpError>)
    ensures
        match reply {
            Some(bytes) => r matches Ok(encoded) && encoded@ == hex_of(bytes@),
            None => r matches Err(e) && e == OpError::ExternalAuthorityFailure,
        },
{
    match reply {
        Some(bytes) => Ok(bytes_to_hex(bytes.as_slice())),
        None => Err(OpError::ExternalAuthorityFailure),
    }
}

} // verus!

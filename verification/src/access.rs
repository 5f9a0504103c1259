//! Access-control evaluation.
//!
//! Pure decision functions. Authority levels form a ladder in which a lower
//! numeric value is a higher privilege: level 0 may read anything, level 255
//! may read only resources that require 255. Reading is gated by authority;
//! mutation is gated by ownership alone, whatever the caller's authority.

use vstd::prelude::*;
use crate::identity::Identity;

verus! {

/// Whether a caller of the given authority may read a resource that requires
/// `required`. An unregistered caller has no authority and is always denied.
pub open spec fn spec_can_read(caller_authority: Option<u8>, required: u8) -> bool {
    match caller_authority {
        Some(a) => a <= required,
        None => false,
    }
}

/// Grants a read exactly when the caller is registered and the caller's
/// authority level is at most the resource's required level.
pub fn can_read(caller_authority: Option<u8>, required_authority: u8) -> (r: bool)
    ensures
        r == spec_can_read(caller_authority, required_authority),
{
    match caller_authority {
        Some(a) => a <= required_authority,
        None => false,
    }
}

/// Grants a mutation exactly when the caller is the recorded owner.
pub fn can_mutate(caller: &Identity, owner: &Identity) -> (r: bool)
    ensures
        r == (caller@ == owner@),
{
    caller.same_as(owner)
}

} // verus!

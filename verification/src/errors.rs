//! The closed error taxonomy.

use vstd::prelude::*;

verus! {

/// Why an operation was refused. Storage- and authority-layer failures are
/// returned to the caller as typed results, never silently swallowed.
#[derive(Clone, Copy, PartialEq, Eq, Structural, Debug)]
pub enum OpError {
    /// The key or identifier is absent.
    NotFound,
    /// The ownership check failed: only the original creator may mutate.
    NotAuthorized,
    /// The payload exceeds its declared size bound.
    ValidationFailure,
    /// The external key-derivation authority failed to answer; the caller
    /// may retry with backoff.
    ExternalAuthorityFailure,
}

} // verus!

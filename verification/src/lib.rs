//! A persistent, access-controlled object store with an audit trail and a
//! per-caller key-derivation protocol.
//!
//! Callers register identities with hashed credentials and an authority
//! level, store and retrieve named resources under a tiered authority model,
//! keep owner-exclusive records in a durable map that survives restarts, and
//! obtain caller-scoped key material from an external derivation authority.

pub mod access;
pub mod audit;
pub mod codec;
pub mod digest;
pub mod durable;
pub mod errors;
pub mod files;
pub mod heroes;
pub mod identity;
pub mod registry;
pub mod store;
pub mod system;
pub mod vetkd;

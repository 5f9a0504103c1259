//! One-way digests and credential fingerprints.
//!
//! The hashing primitive is an injected external digest function; only its
//! interface is assumed here. A credential fingerprint binds an identity to
//! the user-supplied id and secret without ever keeping the plaintext secret:
//! `fingerprint = digest(digest(identity ‖ userId) ‖ digest(identity ‖ secret))`.

use vstd::prelude::*;
use vstd::utf8::encode_utf8;
use crate::identity::{concat_bytes, Identity};

verus! {

/// The SHA-256 digest of a byte string, a function of the input alone.
pub uninterp spec fn sha256_of(data: Seq<u8>) -> Seq<u8>;

/// Relies on sha2::Sha256 (RustCrypto): the digest is a pure function of the
/// input bytes and is always 32 bytes long.
#[verifier::external_body]
pub(crate) fn sha256_digest(data: &[u8]) -> (r: Vec<u8>)
    ensures
        r@ == sha256_of(data@),
        r@.len() == 32,
{
    <sha2::Sha256 as sha2::Digest>::digest(data).to_vec()
}

/// One nibble as a lowercase hexadecimal character.
pub closed spec fn hex_char(n: u8) -> char {
    if n == 0 {
        '0'
    } else if n == 1 {
        '1'
    } else if n == 2 {
        '2'
    } else if n == 3 {
        '3'
    } else if n == 4 {
        '4'
    } else if n == 5 {
        '5'
    } else if n == 6 {
        '6'
    } else if n == 7 {
        '7'
    } else if n == 8 {
        '8'
    } else if n == 9 {
        '9'
    } else if n == 10 {
        'a'
    } else if n == 11 {
        'b'
    } else if n == 12 {
        'c'
    } else if n == 13 {
        'd'
    } else if n == 14 {
        'e'
    } else {
        'f'
    }
}

/// The lowercase hexadecimal encoding of a byte string: two digits per byte,
/// high nibble first.
pub open spec fn hex_of(data: Seq<u8>) -> Seq<char>
    decreases data.len(),
{
    if data.len() == 0 {
        seq![]
    } else {
        seq![hex_char(data.first() / 16), hex_char(data.first() % 16)] + hex_of(data.drop_first())
    }
}

/// Relies on hex::encode: lowercase hexadecimal, two digits per byte, high
/// nibble first.
#[verifier::external_body]
pub(crate) fn bytes_to_hex(data: &[u8]) -> (r: String)
    ensures
        r@ == hex_of(data@),
{
    hex::encode(data)
}

/// The stored credential fingerprint for an identity and its user-supplied
/// id and secret.
pub open spec fn fingerprint_of(identity: Seq<u8>, user_id: Seq<char>, secret: Seq<char>) -> Seq<u8> {
    sha256_of(
        sha256_of(identity + encode_utf8(user_id)) + sha256_of(identity + encode_utf8(secret)),
    )
}

/// Computes the credential fingerprint; the plaintext secret is digested and
/// never stored.
pub fn compute_fingerprint(identity: &Identity, user_id: &str, secret: &str) -> (r: Vec<u8>)
    ensures
        r@ == fingerprint_of(identity@, user_id@, secret@),
        r@.len() == 32,
{
    let id_part = sha256_digest(concat_bytes(identity.bytes().as_slice(), user_id.as_bytes()).as_slice());
    let secret_part = sha256_digest(concat_bytes(identity.bytes().as_slice(), secret.as_bytes()).as_slice());
    sha256_digest(concat_bytes(id_part.as_slice(), secret_part.as_slice()).as_slice())
}

} // verus!

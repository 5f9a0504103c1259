use blockhero::audit::{Action, Order, Outcome};
use blockhero::errors::OpError;
use blockhero::identity::Identity;
use blockhero::system::System;
use blockhero::vetkd::{build_key_request, complete_key_derivation};

fn ident(bytes: &[u8]) -> Identity {
    Identity::from_bytes(bytes.to_vec())
}

#[test]
fn distinct_identities_get_distinct_derivation_paths() {
    let a = ident(&[1, 2, 3]);
    let b = ident(&[4, 5, 6]);
    let same_key = vec![0xAAu8; 32];
    let req_a = build_key_request(&a, same_key.clone());
    let req_b = build_key_request(&b, same_key.clone());
    assert_ne!(req_a.derivation_path, req_b.derivation_path);
    assert_eq!(req_a.public_key, same_key);
    assert_eq!(req_b.public_key, same_key);
}

#[test]
fn derivation_path_is_scoped_to_the_caller() {
    let a = ident(&[9, 9]);
    let req = build_key_request(&a, vec![1]);
    assert_eq!(req.derivation_path, vec![9, 9]);
}

#[test]
fn wrapped_key_is_hex_encoded() {
    let ok = complete_key_derivation(Some(vec![0xAB, 0x01, 0xFF]));
    assert_eq!(ok.unwrap(), "ab01ff");
}

#[test]
fn empty_wrapped_key_encodes_to_the_empty_string() {
    assert_eq!(complete_key_derivation(Some(Vec::new())).unwrap(), "");
}

#[test]
fn authority_failure_is_a_typed_retryable_error() {
    assert_eq!(complete_key_derivation(None), Err(OpError::ExternalAuthorityFailure));
}

#[test]
fn every_call_rederives_without_caching() {
    let mut sys = System::new();
    let a = ident(&[1]);
    let first = sys.settle_key_derivation(&a, Some(vec![0x01]), 10);
    let second = sys.settle_key_derivation(&a, Some(vec![0x02]), 11);
    assert_eq!(first.unwrap(), "01");
    assert_eq!(second.unwrap(), "02");
    let failed = sys.settle_key_derivation(&a, None, 12);
    assert_eq!(failed, Err(OpError::ExternalAuthorityFailure));
}

#[test]
fn key_derivation_is_audited_with_its_outcome() {
    let mut sys = System::new();
    let a = ident(&[1]);
    sys.settle_key_derivation(&a, Some(vec![0x01]), 10).unwrap();
    sys.settle_key_derivation(&a, None, 11).unwrap_err();
    let logs = sys.read_logs(10, Order::Oldest);
    assert_eq!(logs.len(), 2);
    assert!(logs[0].action == Action::KeyDerive && logs[0].outcome == Outcome::Success);
    assert!(logs[1].action == Action::KeyDerive && logs[1].outcome == Outcome::Failure);
}

use blockhero::access::can_read;
use blockhero::audit::{Action, Order, Outcome};
use blockhero::errors::OpError;
use blockhero::files::ReadOutcome;
use blockhero::identity::Identity;
use blockhero::system::System;

fn ident(bytes: &[u8]) -> Identity {
    Identity::from_bytes(bytes.to_vec())
}

#[test]
fn registration_overwrites_prior_credentials() {
    let mut sys = System::new();
    let a = ident(&[1]);
    sys.register_user(&a, "user_one", "secret_one", 5, 10);
    sys.register_user(&a, "user_two", "secret_two", 0, 11);
    assert!(!sys.login(&a, "user_one", "secret_one", 12));
    assert!(sys.login(&a, "user_two", "secret_two", 13));
}

#[test]
fn registration_same_credentials_twice_still_authenticates() {
    let mut sys = System::new();
    let a = ident(&[1]);
    sys.register_user(&a, "alice", "pw1", 1, 10);
    sys.register_user(&a, "alice", "pw1", 1, 11);
    assert!(sys.login(&a, "alice", "pw1", 12));
}

#[test]
fn login_is_exact_on_every_character() {
    let mut sys = System::new();
    let a = ident(&[1]);
    sys.register_user(&a, "alice", "pw1", 1, 10);
    assert!(sys.login(&a, "alice", "pw1", 11));
    assert!(!sys.login(&a, "alice", "pw2", 12));
    assert!(!sys.login(&a, "alicf", "pw1", 13));
    assert!(!sys.login(&a, "alice", "pw", 14));
    assert!(!sys.login(&a, "alic", "epw1", 15));
}

#[test]
fn login_distinguishes_identities() {
    let mut sys = System::new();
    let a = ident(&[1]);
    let b = ident(&[2]);
    sys.register_user(&a, "alice", "pw1", 1, 10);
    assert!(!sys.login(&b, "alice", "pw1", 11));
}

// The fingerprint digests each credential part before combining; if the
// digest handed its input back unchanged, re-splitting "ab" ++ "" as
// "a" ++ "b" would collide and this login would succeed.
#[test]
fn fingerprint_is_not_plain_concatenation() {
    let mut sys = System::new();
    let a = ident(&[]);
    sys.register_user(&a, "ab", "", 1, 10);
    assert!(!sys.login(&a, "a", "b", 11));
}

#[test]
fn check_user_registered_reports_and_stays_silent() {
    let mut sys = System::new();
    let a = ident(&[7]);
    assert!(!sys.check_user_registered(&a));
    sys.register_user(&a, "alice", "pw1", 1, 10);
    assert!(sys.check_user_registered(&a));
    // A pure probe appends no audit entry.
    assert_eq!(sys.read_logs(100, Order::Oldest).len(), 1);
}

#[test]
fn can_read_follows_the_authority_ladder() {
    assert!(can_read(Some(0), 5));
    assert!(!can_read(Some(6), 5));
    assert!(can_read(Some(5), 5));
    assert!(can_read(Some(255), 255));
    assert!(!can_read(Some(255), 0));
    assert!(!can_read(None, 255));
    assert!(!can_read(None, 0));
}

#[test]
fn end_to_end_register_login_scenario() {
    let mut sys = System::new();
    let a = ident(&[10]);
    sys.register_user(&a, "alice", "pw1", 1, 100);
    assert!(sys.login(&a, "alice", "pw1", 101));
    assert!(!sys.login(&a, "alice", "wrong", 102));
}

#[test]
fn end_to_end_upload_read_scenario() {
    let mut sys = System::new();
    let owner = ident(&[11]);
    let low = ident(&[12]);
    let high = ident(&[13]);
    sys.register_user(&low, "low", "pw", 3, 100);
    sys.register_user(&high, "high", "pw", 2, 101);
    let payload = vec![1, 2, 3, 4];
    sys.upload_file("doc1", payload.clone(), 2, &owner, 102);
    match sys.read_file("doc1", &low, 103) {
        ReadOutcome::Denied => {},
        _ => panic!("authority 3 must be denied a resource requiring 2"),
    }
    match sys.read_file("doc1", &high, 104) {
        ReadOutcome::Granted(bytes) => assert_eq!(bytes, payload),
        _ => panic!("authority 2 must read a resource requiring 2"),
    }
}

#[test]
fn unregistered_reader_is_denied_by_default() {
    let mut sys = System::new();
    let owner = ident(&[11]);
    let stranger = ident(&[14]);
    sys.upload_file("doc", vec![5], 255, &owner, 100);
    match sys.read_file("doc", &stranger, 101) {
        ReadOutcome::Denied => {},
        _ => panic!("an unregistered caller has no authority and must be denied"),
    }
}

#[test]
fn absent_title_is_not_found_not_denied() {
    let mut sys = System::new();
    let a = ident(&[1]);
    sys.register_user(&a, "alice", "pw1", 0, 100);
    match sys.read_file("missing", &a, 101) {
        ReadOutcome::NotFound => {},
        _ => panic!("an absent resource is reported as absent"),
    }
}

#[test]
fn reupload_replaces_payload_and_authority() {
    let mut sys = System::new();
    let owner = ident(&[11]);
    let reader = ident(&[12]);
    sys.register_user(&reader, "r", "pw", 4, 100);
    sys.upload_file("doc", vec![1], 4, &owner, 101);
    match sys.read_file("doc", &reader, 102) {
        ReadOutcome::Granted(bytes) => assert_eq!(bytes, vec![1]),
        _ => panic!("first upload must be readable at level 4"),
    }
    sys.upload_file("doc", vec![2], 3, &owner, 103);
    match sys.read_file("doc", &reader, 104) {
        ReadOutcome::Denied => {},
        _ => panic!("re-upload tightened the requirement to 3"),
    }
}

#[test]
fn mutation_is_owner_exclusive_even_for_top_authority() {
    let mut sys = System::new();
    let owner = ident(&[20]);
    let admin = ident(&[21]);
    sys.register_user(&admin, "admin", "pw", 0, 100);
    let id = sys
        .create_hero(&owner, b"rescuer".to_vec(), b"flight".to_vec(), 101)
        .expect("creation fits the bound");
    assert_eq!(
        sys.update_hero(id, &admin, b"x".to_vec(), b"y".to_vec(), 102),
        Err(OpError::NotAuthorized)
    );
    assert_eq!(sys.delete_hero(id, &admin, 103), Err(OpError::NotAuthorized));
    assert_eq!(sys.update_hero(id, &owner, b"x".to_vec(), b"y".to_vec(), 104), Ok(()));
    assert_eq!(sys.delete_hero(id, &owner, 105), Ok(()));
}

#[test]
fn update_and_delete_report_absent_ids() {
    let mut sys = System::new();
    let a = ident(&[1]);
    assert_eq!(sys.update_hero(9, &a, b"x".to_vec(), b"y".to_vec(), 100), Err(OpError::NotFound));
    assert_eq!(sys.delete_hero(9, &a, 101), Err(OpError::NotFound));
}

#[test]
fn audit_log_query_orders_and_bounds() {
    let mut sys = System::new();
    let a = ident(&[1]);
    sys.register_user(&a, "e1", "pw", 1, 1);
    sys.register_user(&a, "e2", "pw", 1, 2);
    sys.register_user(&a, "e3", "pw", 1, 3);
    let oldest = sys.read_logs(2, Order::Oldest);
    assert_eq!(oldest.len(), 2);
    assert_eq!(oldest[0].timestamp, 1);
    assert_eq!(oldest[1].timestamp, 2);
    let recent = sys.read_logs(2, Order::Recent);
    assert_eq!(recent.len(), 2);
    assert_eq!(recent[0].timestamp, 3);
    assert_eq!(recent[1].timestamp, 2);
    let all = sys.read_logs(50, Order::Oldest);
    assert_eq!(all.len(), 3);
    assert!(sys.read_logs(0, Order::Recent).is_empty());
}

#[test]
fn audit_entries_record_actor_action_and_outcome() {
    let mut sys = System::new();
    let a = ident(&[9]);
    sys.register_user(&a, "alice", "pw1", 1, 10);
    sys.login(&a, "alice", "bad", 11);
    sys.upload_file("doc", vec![1], 5, &a, 12);
    sys.read_file("doc", &a, 13);
    let logs = sys.read_logs(10, Order::Oldest);
    assert_eq!(logs.len(), 4);
    assert!(logs[0].action == Action::Register && logs[0].outcome == Outcome::Success);
    assert!(logs[1].action == Action::Login && logs[1].outcome == Outcome::Failure);
    assert!(logs[2].action == Action::Upload && logs[2].outcome == Outcome::Success);
    assert!(logs[3].action == Action::Read && logs[3].outcome == Outcome::Success);
    assert_eq!(logs[0].actor.bytes(), &vec![9u8]);
    assert_eq!(logs[0].detail, "alice");
}

#[test]
fn denied_and_absent_reads_are_audited() {
    let mut sys = System::new();
    let owner = ident(&[1]);
    let stranger = ident(&[2]);
    sys.upload_file("doc", vec![1], 0, &owner, 10);
    sys.read_file("doc", &stranger, 11);
    sys.read_file("gone", &stranger, 12);
    let logs = sys.read_logs(10, Order::Oldest);
    assert!(logs[1].action == Action::Read && logs[1].outcome == Outcome::Denied);
    assert!(logs[2].action == Action::Read && logs[2].outcome == Outcome::NotFound);
}

#[test]
fn reregistration_replaces_the_authority_level() {
    let mut sys = System::new();
    let owner = ident(&[30]);
    let a = ident(&[31]);
    sys.upload_file("doc", vec![1], 2, &owner, 10);
    sys.register_user(&a, "a", "pw", 5, 11);
    match sys.read_file("doc", &a, 12) {
        ReadOutcome::Denied => {},
        _ => panic!("authority 5 must be denied a resource requiring 2"),
    }
    sys.register_user(&a, "a", "pw", 1, 13);
    match sys.read_file("doc", &a, 14) {
        ReadOutcome::Granted(bytes) => assert_eq!(bytes, vec![1]),
        _ => panic!("the latest registration carries authority 1"),
    }
}

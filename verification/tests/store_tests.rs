use blockhero::errors::OpError;
use blockhero::files::{FileStore, ReadOutcome};
use blockhero::heroes::HeroStore;
use blockhero::identity::Identity;
use blockhero::store::{Backing, IdAllocator, ObjectStore, MAX_VALUE_BYTES};
use blockhero::system::System;

fn ident(bytes: &[u8]) -> Identity {
    Identity::from_bytes(bytes.to_vec())
}

#[test]
fn identifiers_are_sequential_without_gaps() {
    let mut heroes = HeroStore::new();
    let owner = ident(&[1]);
    let mut ids = Vec::new();
    for i in 0..5u8 {
        let id = heroes
            .create_hero(&owner, vec![i], vec![i])
            .expect("small records fit the bound");
        ids.push(id);
    }
    assert_eq!(ids, vec![0, 1, 2, 3, 4]);
}

#[test]
fn counter_survives_a_simulated_restart() {
    let mut heroes = HeroStore::new();
    let owner = ident(&[1]);
    assert_eq!(heroes.create_hero(&owner, b"a".to_vec(), b"b".to_vec()), Ok(0));
    assert_eq!(heroes.create_hero(&owner, b"c".to_vec(), b"d".to_vec()), Ok(1));
    heroes.reopen();
    assert_eq!(heroes.create_hero(&owner, b"e".to_vec(), b"f".to_vec()), Ok(2));
}

#[test]
fn deleted_identifiers_are_never_reused() {
    let mut heroes = HeroStore::new();
    let owner = ident(&[1]);
    let id = heroes.create_hero(&owner, b"a".to_vec(), b"b".to_vec()).unwrap();
    assert_eq!(heroes.delete_hero(id, &owner), Ok(()));
    let next = heroes.create_hero(&owner, b"c".to_vec(), b"d".to_vec()).unwrap();
    assert_eq!(next, id + 1);
}

#[test]
fn records_survive_a_simulated_restart() {
    let mut heroes = HeroStore::new();
    let owner = ident(&[1, 2, 3]);
    let id = heroes
        .create_hero(&owner, b"rescuer".to_vec(), b"flight".to_vec())
        .unwrap();
    heroes.reopen();
    let back = heroes.get_hero(id).expect("the record is durable");
    assert_eq!(back.name, b"rescuer".to_vec());
    assert_eq!(back.power, b"flight".to_vec());
    assert_eq!(back.owner.bytes(), &vec![1, 2, 3]);
}

#[test]
fn updates_survive_a_simulated_restart() {
    let mut heroes = HeroStore::new();
    let owner = ident(&[1]);
    let id = heroes.create_hero(&owner, b"old".to_vec(), b"p".to_vec()).unwrap();
    assert_eq!(heroes.update_hero(id, &owner, b"new".to_vec(), b"q".to_vec()), Ok(()));
    heroes.reopen();
    let back = heroes.get_hero(id).unwrap();
    assert_eq!(back.name, b"new".to_vec());
    assert_eq!(back.power, b"q".to_vec());
}

#[test]
fn durable_put_then_restart_then_get_round_trips() {
    let mut store = ObjectStore::new();
    let value = vec![42u8, 7, 9];
    assert!(store.put(3, value.clone()));
    store.reopen();
    assert_eq!(store.get(3), Some(value));
    assert_eq!(store.get(4), None);
}

#[test]
fn oversized_values_are_rejected_before_insertion() {
    let mut store = ObjectStore::new();
    assert!(!store.put(1, vec![0u8; MAX_VALUE_BYTES + 1]));
    assert_eq!(store.get(1), None);
    assert!(store.put(1, vec![0u8; MAX_VALUE_BYTES]));
    assert!(store.get(1).is_some());
}

#[test]
fn remove_is_idempotent() {
    let mut store = ObjectStore::new();
    assert!(store.put(1, vec![1]));
    assert!(store.remove(1));
    assert!(!store.remove(1));
    assert_eq!(store.get(1), None);
}

#[test]
fn list_all_is_ascending_by_key() {
    let mut store = ObjectStore::new();
    assert!(store.put(5, vec![5]));
    assert!(store.put(1, vec![1]));
    assert!(store.put(3, vec![3]));
    let entries = store.list_all();
    let keys: Vec<u64> = entries.iter().map(|e| e.0).collect();
    assert_eq!(keys, vec![1, 3, 5]);
    assert_eq!(entries[0].1, vec![1]);
}

#[test]
fn allocator_counts_up_and_survives_reopen() {
    let mut alloc = IdAllocator::new();
    assert_eq!(alloc.allocate(), 0);
    assert_eq!(alloc.allocate(), 1);
    alloc.reopen();
    assert_eq!(alloc.allocate(), 2);
}

#[test]
fn oversized_records_fail_validation_without_allocating() {
    let mut heroes = HeroStore::new();
    let owner = ident(&[1]);
    assert_eq!(
        heroes.create_hero(&owner, vec![0u8; 300], vec![]),
        Err(OpError::ValidationFailure)
    );
    // The failed attempt consumed no identifier.
    assert_eq!(heroes.create_hero(&owner, b"a".to_vec(), b"b".to_vec()), Ok(0));
}

#[test]
fn record_size_bound_is_exact() {
    let mut heroes = HeroStore::new();
    let owner = ident(&[1]);
    // Frame size is 6 + owner + name + power; owner is 1 byte here.
    let fits = vec![0u8; MAX_VALUE_BYTES - 6 - 1];
    assert!(heroes.create_hero(&owner, fits, vec![]).is_ok());
    let too_big = vec![0u8; MAX_VALUE_BYTES - 6];
    assert_eq!(heroes.create_hero(&owner, too_big, vec![]), Err(OpError::ValidationFailure));
}

#[test]
fn oversized_update_leaves_the_record_alone() {
    let mut heroes = HeroStore::new();
    let owner = ident(&[1]);
    let id = heroes.create_hero(&owner, b"a".to_vec(), b"b".to_vec()).unwrap();
    assert_eq!(
        heroes.update_hero(id, &owner, vec![0u8; 300], vec![]),
        Err(OpError::ValidationFailure)
    );
    let back = heroes.get_hero(id).unwrap();
    assert_eq!(back.name, b"a".to_vec());
}

#[test]
fn get_all_heroes_lists_every_record_in_id_order() {
    let mut heroes = HeroStore::new();
    let owner = ident(&[1]);
    for i in 0..3u8 {
        heroes.create_hero(&owner, vec![i], vec![10 + i]).unwrap();
    }
    heroes.delete_hero(1, &owner).unwrap();
    let all = heroes.get_all_heroes();
    assert_eq!(all.len(), 2);
    assert_eq!(all[0].0, 0);
    assert_eq!(all[1].0, 2);
    assert_eq!(all[1].1.name, vec![2]);
}

#[test]
fn whole_system_restart_keeps_durable_state_and_forfeits_the_rest() {
    let mut sys = System::new();
    let a = ident(&[1]);
    sys.register_user(&a, "alice", "pw1", 1, 10);
    let id = sys.create_hero(&a, b"r".to_vec(), b"f".to_vec(), 11).unwrap();
    sys.upload_file("doc", vec![4, 2], 3, &a, 12);
    sys.restart();
    assert!(!sys.check_user_registered(&a));
    assert!(sys.read_logs(10, blockhero::audit::Order::Oldest).is_empty());
    let back = sys.get_hero(id).expect("durable records survive the restart");
    assert_eq!(back.name, b"r".to_vec());
    // The resource store is durable too: after re-registering, the payload
    // uploaded before the restart is still readable.
    sys.register_user(&a, "alice", "pw1", 1, 13);
    match sys.read_file("doc", &a, 14) {
        blockhero::files::ReadOutcome::Granted(bytes) => assert_eq!(bytes, vec![4, 2]),
        _ => panic!("resources survive the restart"),
    }
}

#[test]
fn ephemeral_resource_store_forfeits_contents_on_restart() {
    let owner = ident(&[1]);
    let mut files = FileStore::new_with(Backing::Ephemeral);
    files.upload("doc", vec![1], 0, &owner);
    files.reopen();
    match files.read("doc", Some(0)) {
        ReadOutcome::NotFound => {},
        _ => panic!("the ephemeral backing forfeits its contents"),
    }
}

#[test]
fn durable_resource_store_round_trips_through_restart() {
    let owner = ident(&[1]);
    let mut files = FileStore::new();
    files.upload("doc", vec![9, 9, 9], 7, &owner);
    files.reopen();
    match files.read("doc", Some(7)) {
        ReadOutcome::Granted(bytes) => assert_eq!(bytes, vec![9, 9, 9]),
        _ => panic!("the durable backing keeps its contents"),
    }
}

#[test]
fn ephemeral_backing_forfeits_contents_on_restart() {
    let mut store = ObjectStore::new_with(Backing::Ephemeral);
    assert!(store.put(1, vec![7]));
    assert_eq!(store.get(1), Some(vec![7]));
    store.reopen();
    assert_eq!(store.get(1), None);
}

#[test]
fn durable_backing_is_the_default() {
    let mut store = ObjectStore::new_with(Backing::Durable);
    assert!(store.put(1, vec![7]));
    store.reopen();
    assert_eq!(store.get(1), Some(vec![7]));
}

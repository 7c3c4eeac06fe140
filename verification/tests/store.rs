use sui_sandbox::base_types::{ObjectDigest, ObjectID, Owner, SuiAddress, TransactionDigest};
use sui_sandbox::collections::VecMap;
use sui_sandbox::object::{Data, MoveObject, Object, StructTag};
use sui_sandbox::rpc_types::PastObjectRead;
use sui_sandbox::sandbox::storage::StorageExtension;

fn id(n: u128) -> ObjectID {
    ObjectID { hi: 0, lo: n }
}

fn account(n: u128) -> SuiAddress {
    SuiAddress { hi: 7, lo: n }
}

fn thing(n: u128, version: u64, owner: Owner) -> Object {
    Object {
        id: id(n),
        version,
        owner,
        digest: ObjectDigest { hi: n, lo: version as u128 },
        previous_transaction: TransactionDigest { hi: 0, lo: 0 },
        storage_rebate: 0,
        data: Data::Move(MoveObject {
            type_: StructTag {
                address: id(0x42),
                module: String::from("thing"),
                name: String::from("Thing"),
                type_params: vec![],
            },
            has_public_transfer: true,
            contents: vec![1, 2, 3],
        }),
    }
}

fn empty_store() -> StorageExtension {
    StorageExtension::new(VecMap::new())
}

fn ids_for(store: &StorageExtension, owner: Owner) -> Vec<ObjectID> {
    let mut ids: Vec<ObjectID> = store.objects_for(&owner).iter().map(|o| o.id).collect();
    ids.sort();
    ids
}

#[test]
fn versions_inserted_in_order_are_read_back() {
    let mut store = empty_store();
    let owner = Owner::AddressOwner(account(1));
    store.insert_object(thing(5, 3, owner));
    store.insert_object(thing(5, 4, owner));
    store.insert_object(thing(5, 9, owner));
    for v in [3u64, 4, 9] {
        match store.get_object_at_version(&id(5), v) {
            PastObjectRead::VersionFound(reference, object) => {
                assert_eq!(reference, (id(5), v, ObjectDigest { hi: 5, lo: v as u128 }));
                assert_eq!(object.version, v);
                assert_eq!(object.id, id(5));
            }
            _ => panic!("version {} was not found", v),
        }
    }
    match store.get_object_at_version(&id(5), 10) {
        PastObjectRead::VersionTooHigh { object_id, asked_version, latest_version } => {
            assert_eq!(object_id, id(5));
            assert_eq!(asked_version, 10);
            assert_eq!(latest_version, 9);
        }
        _ => panic!("a version above the latest must read as too high"),
    }
    assert!(matches!(
        store.get_object_at_version(&id(5), 5),
        PastObjectRead::VersionNotFound(i, 5) if i == id(5)
    ));
}

#[test]
fn deleted_object_reads_as_deleted_at_its_version() {
    let mut store = empty_store();
    store.insert_object(thing(8, 1, Owner::AddressOwner(account(1))));
    store.remove_object(id(8));
    match store.get_object_at_version(&id(8), 1) {
        PastObjectRead::ObjectDeleted(reference) => {
            assert_eq!(reference, (id(8), 1, ObjectDigest { hi: 8, lo: 1 }));
        }
        _ => panic!("the deleted version must read as deleted"),
    }
    assert!(matches!(
        store.get_object_at_version(&id(8), 2),
        PastObjectRead::VersionNotFound(i, 2) if i == id(8)
    ));
    assert!(store.get_object(&id(8)).is_none());
}

#[test]
fn unknown_object_does_not_exist() {
    let store = empty_store();
    assert!(matches!(
        store.get_object_at_version(&id(1), 1),
        PastObjectRead::ObjectNotExists(i) if i == id(1)
    ));
}

#[test]
fn ownership_index_follows_the_current_owner() {
    let mut store = empty_store();
    let a = Owner::AddressOwner(account(1));
    let b = Owner::AddressOwner(account(2));
    let parent = Owner::ObjectOwner(account(3));
    store.insert_object(thing(1, 1, a));
    store.insert_object(thing(2, 1, a));
    store.insert_object(thing(3, 1, b));
    assert_eq!(ids_for(&store, a), vec![id(1), id(2)]);
    assert_eq!(ids_for(&store, b), vec![id(3)]);
    store.insert_object(thing(2, 2, b));
    assert_eq!(ids_for(&store, a), vec![id(1)]);
    assert_eq!(ids_for(&store, b), vec![id(2), id(3)]);
    store.insert_object(thing(1, 2, parent));
    assert_eq!(ids_for(&store, a), Vec::<ObjectID>::new());
    assert_eq!(ids_for(&store, parent), vec![id(1)]);
    store.remove_object(id(3));
    assert_eq!(ids_for(&store, b), vec![id(2)]);
    store.insert_object(thing(2, 3, Owner::Immutable));
    assert_eq!(ids_for(&store, b), Vec::<ObjectID>::new());
    assert_eq!(ids_for(&store, Owner::Immutable), vec![id(2)]);
    assert_eq!(store.get_object(&id(2)).unwrap().version, 3);
    let shared = Owner::Shared { initial_shared_version: 4 };
    store.insert_object(thing(2, 4, shared));
    assert_eq!(ids_for(&store, Owner::Immutable), Vec::<ObjectID>::new());
    assert_eq!(ids_for(&store, shared), vec![id(2)]);
    assert_eq!(ids_for(&store, Owner::Shared { initial_shared_version: 5 }), Vec::<ObjectID>::new());
}

#[test]
fn wrapped_object_leaves_the_index_and_is_not_marked_deleted() {
    let mut store = empty_store();
    let a = Owner::AddressOwner(account(1));
    store.insert_object(thing(4, 1, a));
    store.wrap_object(id(4), thing(4, 2, a));
    assert_eq!(ids_for(&store, a), Vec::<ObjectID>::new());
    assert_eq!(store.get_object(&id(4)).unwrap().version, 2);
    assert!(matches!(
        store.get_object_at_version(&id(4), 2),
        PastObjectRead::VersionFound(_, _)
    ));
    assert!(matches!(
        store.get_object_at_version(&id(4), 1),
        PastObjectRead::VersionFound(_, _)
    ));
    assert!(matches!(
        store.get_object_at_version(&id(4), 3),
        PastObjectRead::VersionTooHigh { latest_version: 2, .. }
    ));
}

#[test]
fn removal_without_trace_forgets_the_history() {
    let mut store = empty_store();
    let a = Owner::AddressOwner(account(1));
    store.insert_object(thing(4, 1, a));
    store.remove_object_without_trace(id(4));
    assert!(store.get_object(&id(4)).is_none());
    assert_eq!(ids_for(&store, a), Vec::<ObjectID>::new());
    assert!(matches!(
        store.get_object_at_version(&id(4), 1),
        PastObjectRead::ObjectNotExists(i) if i == id(4)
    ));
}

#[test]
fn insertion_after_deletion_clears_the_marker() {
    let mut store = empty_store();
    let a = Owner::AddressOwner(account(1));
    store.insert_object(thing(4, 1, a));
    store.remove_object(id(4));
    store.insert_object(thing(4, 2, a));
    assert!(matches!(
        store.get_object_at_version(&id(4), 1),
        PastObjectRead::VersionFound(_, _)
    ));
    assert!(matches!(
        store.get_object_at_version(&id(4), 2),
        PastObjectRead::VersionFound(_, _)
    ));
    assert_eq!(ids_for(&store, a), vec![id(4)]);
}

#[test]
fn rollback_brings_a_version_back() {
    let mut store = empty_store();
    let a = Owner::AddressOwner(account(1));
    let b = Owner::AddressOwner(account(2));
    store.insert_object(thing(4, 1, a));
    store.insert_object(thing(4, 2, b));
    store.remove_object(id(4));
    let back = store._rollback_to_version(&id(4), 1).unwrap();
    assert_eq!(back.version, 1);
    assert_eq!(store.get_object(&id(4)).unwrap().version, 1);
    assert_eq!(ids_for(&store, a), vec![id(4)]);
    assert_eq!(ids_for(&store, b), Vec::<ObjectID>::new());
    assert!(matches!(
        store.get_object_at_version(&id(4), 2),
        PastObjectRead::VersionFound(_, _)
    ));
    assert!(store._rollback_to_version(&id(4), 7).is_none());
    assert!(store._rollback_to_version(&id(9), 1).is_none());
}

#[test]
fn finish_inserts_every_written_object() {
    let mut store = empty_store();
    let a = Owner::AddressOwner(account(1));
    store.finish(vec![thing(1, 1, a), thing(2, 1, a), thing(1, 2, a)]);
    assert_eq!(store.get_object(&id(1)).unwrap().version, 2);
    assert_eq!(store.get_object(&id(2)).unwrap().version, 1);
    assert_eq!(ids_for(&store, a), vec![id(1), id(2)]);
}

#[test]
fn checkpoint_moves_only_when_bumped() {
    let mut store = empty_store();
    assert_eq!(store.checkpoint(), 0);
    store.insert_object(thing(1, 1, Owner::Immutable));
    assert_eq!(store.checkpoint(), 0);
    store.bump_checkpoint();
    store.bump_checkpoint();
    assert_eq!(store.checkpoint(), 2);
}

#[test]
fn initial_objects_are_current_without_history() {
    let mut inner = VecMap::new();
    inner.insert(id(1), thing(1, 5, Owner::Immutable));
    inner.insert(id(2), thing(2, 1, Owner::AddressOwner(account(1))));
    inner.insert(id(3), thing(3, 1, Owner::Immutable));
    let store = StorageExtension::new(inner);
    assert_eq!(store.get_object(&id(1)).unwrap().version, 5);
    assert_eq!(store.as_inner().len(), 3);
    assert_eq!(ids_for(&store, Owner::Immutable), vec![id(1), id(3)]);
    assert_eq!(ids_for(&store, Owner::AddressOwner(account(1))), vec![id(2)]);
    assert_eq!(ids_for(&store, Owner::AddressOwner(account(2))), Vec::<ObjectID>::new());
    assert!(matches!(
        store.get_object_at_version(&id(1), 5),
        PastObjectRead::ObjectNotExists(_)
    ));
}

#[test]
fn ownership_index_stays_exact_over_many_operations() {
    let owners = [
        Owner::AddressOwner(account(1)),
        Owner::AddressOwner(account(2)),
        Owner::ObjectOwner(account(1)),
        Owner::Shared { initial_shared_version: 1 },
        Owner::Immutable,
    ];
    let mut store = empty_store();
    // What the current objects should be, kept on the side.
    let mut current: Vec<Option<Owner>> = vec![None; 8];
    let mut state: u64 = 0x2545_f491_4f6c_dd1d;
    for step in 0..400u64 {
        state ^= state << 13;
        state ^= state >> 7;
        state ^= state << 17;
        let n = (state % 8) as usize;
        let owner = owners[((state >> 8) % 5) as usize];
        if (state >> 16) % 3 == 0 {
            store.remove_object(id(n as u128));
            current[n] = None;
        } else {
            store.insert_object(thing(n as u128, step + 1, owner));
            current[n] = Some(owner);
        }
        for owner in &owners {
            let expected: Vec<ObjectID> = (0..8usize)
                .filter(|i| current[*i] == Some(*owner))
                .map(|i| id(i as u128))
                .collect();
            assert_eq!(ids_for(&store, *owner), expected, "after step {}", step);
        }
    }
}

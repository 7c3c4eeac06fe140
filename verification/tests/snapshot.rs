use sui_sandbox::base_types::{ObjectDigest, ObjectID, Owner, SuiAddress, TransactionDigest};
use sui_sandbox::collections::VecMap;
use sui_sandbox::error::SandboxError;
use sui_sandbox::object::{Data, MoveModule, MoveObject, MovePackage, Object, StructTag};
use sui_sandbox::rpc_types::{ObjectRead, PastObjectRead, TransactionFilter};
use sui_sandbox::sandbox::extensions::auth_extension::{AuthExtension, AuthMode};
use sui_sandbox::sandbox::extensions::transaction_control::TransactionControlExtension;
use sui_sandbox::sandbox::storage::snapshot::{compress, decompress, SnapshotError};
use sui_sandbox::sandbox::{SandboxBuilder, StorageExtension};
use sui_sandbox::transaction::{
    GasData, ProgrammableTransaction, Signature, TransactionData, TransactionKind,
};
use sui_sandbox::utils::response_from_errors;

fn id(n: u128) -> ObjectID {
    ObjectID { hi: 0, lo: n }
}

fn account(n: u128) -> SuiAddress {
    SuiAddress { hi: 0, lo: n }
}

fn thing(n: u128, version: u64, owner: Owner) -> Object {
    Object {
        id: id(n),
        version,
        owner,
        digest: ObjectDigest { hi: n, lo: version as u128 },
        previous_transaction: TransactionDigest { hi: 0, lo: 0 },
        storage_rebate: 0,
        data: Data::Move(MoveObject {
            type_: StructTag {
                address: id(0x42),
                module: String::from("thing"),
                name: String::from("Thing"),
                type_params: vec![],
            },
            has_public_transfer: true,
            contents: vec![1, 2, 3],
        }),
    }
}

fn package(n: u128) -> Object {
    Object {
        id: id(n),
        version: 1,
        owner: Owner::Immutable,
        digest: ObjectDigest { hi: n, lo: 1 },
        previous_transaction: TransactionDigest { hi: 0, lo: 0 },
        storage_rebate: 0,
        data: Data::Package(MovePackage {
            modules: vec![
                MoveModule { name: String::from("alpha"), bytes: vec![1, 2] },
                MoveModule { name: String::from("beta"), bytes: vec![3] },
            ],
            tables: vec![],
        }),
    }
}

fn tx(n: u128, sender: SuiAddress) -> TransactionData {
    TransactionData {
        digest: TransactionDigest { hi: 9, lo: n },
        sender,
        kind: TransactionKind::ProgrammableTransaction(ProgrammableTransaction {
            inputs: vec![],
            commands: vec![],
        }),
        kind_label: String::from("ProgrammableTransaction"),
        gas_data: GasData { payment: vec![], owner: sender, price: 10, budget: 1000 },
        input_objects: Ok(vec![]),
        raw: vec![n as u8],
    }
}

fn busy_store() -> StorageExtension {
    let mut store = StorageExtension::new(VecMap::new());
    let a = Owner::AddressOwner(account(1));
    store.insert_object(thing(1, 1, a));
    store.insert_object(thing(1, 2, a));
    store.insert_object(thing(2, 1, a));
    store.insert_object(thing(3, 1, Owner::ObjectOwner(account(1))));
    store.remove_object(id(2));
    store.bump_checkpoint();
    let t = tx(1, account(1));
    store.record_transaction(&t, &[]);
    assert!(store.insert_transaction(t.digest, response_from_errors(&t, vec![String::from("e")])));
    assert!(!store.insert_transaction(t.digest, response_from_errors(&t, vec![String::from("f")])));
    assert_eq!(store.get_transaction(&t.digest).unwrap().errors, vec![String::from("e")]);
    store
}

fn same_answers(one: &StorageExtension, other: &StorageExtension) {
    let a = Owner::AddressOwner(account(1));
    for n in 1..=4u128 {
        assert_eq!(
            one.get_object(&id(n)).map(|o| (o.version, o.owner, o.digest)),
            other.get_object(&id(n)).map(|o| (o.version, o.owner, o.digest))
        );
        for v in 0..4u64 {
            let left = one.get_object_at_version(&id(n), v);
            let right = other.get_object_at_version(&id(n), v);
            match (left, right) {
                (PastObjectRead::ObjectNotExists(x), PastObjectRead::ObjectNotExists(y)) => assert_eq!(x, y),
                (PastObjectRead::VersionFound(x, _), PastObjectRead::VersionFound(y, _)) => assert_eq!(x, y),
                (PastObjectRead::ObjectDeleted(x), PastObjectRead::ObjectDeleted(y)) => assert_eq!(x, y),
                (PastObjectRead::VersionNotFound(x, p), PastObjectRead::VersionNotFound(y, q)) => {
                    assert_eq!((x, p), (y, q))
                }
                (
                    PastObjectRead::VersionTooHigh { latest_version: p, .. },
                    PastObjectRead::VersionTooHigh { latest_version: q, .. },
                ) => assert_eq!(p, q),
                _ => panic!("reads of object {} at version {} differ", n, v),
            }
        }
    }
    let ids = |s: &StorageExtension, o: Owner| {
        let mut v: Vec<ObjectID> = s.objects_for(&o).iter().map(|x| x.id).collect();
        v.sort();
        v
    };
    assert_eq!(ids(one, a), ids(other, a));
    assert_eq!(ids(one, a), vec![id(1)]);
    let parent = Owner::ObjectOwner(account(1));
    assert_eq!(ids(one, parent), ids(other, parent));
    assert_eq!(one.checkpoint(), other.checkpoint());
    let digests = |s: &StorageExtension, f: Option<TransactionFilter>| {
        let mut v: Vec<TransactionDigest> = s.query(f).iter().map(|r| r.digest).collect();
        v.sort();
        v
    };
    assert_eq!(digests(one, None), digests(other, None));
    assert_eq!(
        digests(one, Some(TransactionFilter::FromAddress(account(1)))),
        digests(other, Some(TransactionFilter::FromAddress(account(1))))
    );
    assert_eq!(digests(one, Some(TransactionFilter::FromAddress(account(1)))).len(), 1);
}

#[test]
fn restored_store_answers_as_the_store_it_came_from() {
    let store = busy_store();
    let restored = StorageExtension::from_snapshot(store.to_snapshot());
    same_answers(&store, &restored);

    let mut other = StorageExtension::new(VecMap::new());
    other.insert_object(thing(9, 1, Owner::AddressOwner(account(1))));
    other.restore_from_snapshot(store.to_snapshot());
    same_answers(&store, &other);
    // The restore replaces: nothing of the old state stays.
    assert!(other.get_object(&id(9)).is_none());
    assert!(matches!(other.get_object_at_version(&id(9), 1), PastObjectRead::ObjectNotExists(_)));
}

#[test]
fn compression_round_trips() {
    let data: Vec<u8> = (0..2000u32).map(|i| (i % 7) as u8).collect();
    let stream = compress(&data).unwrap();
    assert_ne!(stream, data);
    assert!(stream.len() < data.len());
    assert_eq!(&stream[..2], &[0x1f, 0x8b]);
    assert_eq!(decompress(&stream).unwrap(), data);
    assert_eq!(compress(&data).unwrap(), stream);
    let empty = compress(&[]).unwrap();
    assert_eq!(decompress(&empty).unwrap(), Vec::<u8>::new());
}

#[test]
fn what_is_no_stream_does_not_decompress() {
    assert_eq!(decompress(&[1, 2, 3, 4]), Err(SnapshotError::Decompression));
    let data = vec![5u8; 100];
    let mut stream = compress(&data).unwrap();
    stream.truncate(stream.len() - 4);
    assert_eq!(decompress(&stream), Err(SnapshotError::Decompression));
}

#[test]
fn identifiers_are_written_as_hex() {
    let address = SuiAddress { hi: 0x0123_4567_89ab_cdef_0000_0000_0000_0000, lo: 0xff };
    assert_eq!(
        address.to_text(),
        "0x0123456789abcdef0000000000000000000000000000000000000000000000ff"
    );
    assert_eq!(
        ObjectID { hi: 0, lo: 0 }.to_text(),
        format!("0x{}", "0".repeat(64))
    );
    assert_eq!(
        ObjectID { hi: u128::MAX, lo: u128::MAX }.to_text(),
        format!("0x{}", "f".repeat(64))
    );
    assert_eq!(
        ObjectID { hi: 1, lo: 0x10 }.to_text(),
        format!("0x{}1{}10", "0".repeat(31), "0".repeat(30))
    );
}

#[test]
fn errors_have_their_messages() {
    let zero = "0".repeat(63);
    assert_eq!(
        SandboxError::OwnershipViolation { owner: account(0xb) }.message(),
        format!("Object owned by 0x{}b accessed without owner signature", zero)
    );
    assert_eq!(
        SandboxError::GasObjectNotFound(id(1)).message(),
        format!("Gas payment object 0x{}1 not found", zero)
    );
    assert_eq!(SandboxError::ObjectNotFound(id(2)).message(), format!("No object 0x{}2", zero));
    assert_eq!(
        SandboxError::NotAPackage(id(3)).message(),
        format!("Object 0x{}3 is not a package", zero)
    );
    assert_eq!(
        SandboxError::ModuleNotFound(String::from("m")).message(),
        "Module m not found in package"
    );
    assert_eq!(SandboxError::InvalidSignature(String::from("s")).message(), "s");
    assert_eq!(SandboxError::InvalidInputObjects(String::from("i")).message(), "i");
    assert_eq!(SandboxError::InvalidGas(String::from("g")).message(), "g");
}

#[test]
fn guard_checks_only_while_it_is_on() {
    let mut auth = AuthExtension::new();
    assert!(!auth.is_disabled());
    let signatures = vec![
        Signature { bytes: vec![], signer: None },
        Signature { bytes: vec![], signer: Some(account(2)) },
    ];
    assert!(auth.verify_object_ownership(account(2), &signatures).is_ok());
    assert!(matches!(
        auth.verify_object_ownership(account(3), &signatures),
        Err(SandboxError::OwnershipViolation { owner }) if owner == account(3)
    ));
    assert!(matches!(
        auth.verify_object_ownership(account(2), &[]),
        Err(SandboxError::OwnershipViolation { .. })
    ));
    assert!(auth.verify_transaction(&Ok(())).is_ok());
    assert!(matches!(
        auth.verify_transaction(&Err(String::from("bad"))),
        Err(SandboxError::InvalidSignature(why)) if why == "bad"
    ));
    assert_eq!(auth.set_mode(AuthMode::Disabled), AuthMode::Enabled);
    assert!(auth.is_disabled());
    assert!(auth.verify_object_ownership(account(3), &signatures).is_ok());
    assert!(auth.verify_transaction(&Err(String::from("bad"))).is_ok());
    assert_eq!(auth.set_mode(AuthMode::Enabled), AuthMode::Disabled);
    assert!(!auth.is_disabled());
}

#[test]
fn armed_reason_is_handed_over_once() {
    let mut control = TransactionControlExtension::default();
    assert_eq!(control.reject(|reason| reason.len()), None);
    control.reject_with(String::from("first"));
    control.reject_with(String::from("second"));
    assert_eq!(control.reject(|reason| format!("<{}>", reason)), Some(String::from("<second>")));
    assert_eq!(control.reject(|reason| reason), None);
    control.reject_with(String::from("third"));
    assert_eq!(control.take(), Some(String::from("third")));
    assert_eq!(control.take(), None);
}

#[test]
fn modules_are_found_by_name() {
    let mut sb = SandboxBuilder::default().build(vec![package(0x50)]);
    sb.create_object(thing(1, 1, Owner::Immutable));
    assert_eq!(sb.package().get_module(id(0x50), &String::from("beta")).unwrap(), vec![3]);
    assert_eq!(sb.package().get_module(id(0x50), &String::from("alpha")).unwrap(), vec![1, 2]);
    assert!(matches!(
        sb.package().get_module(id(0x50), &String::from("gamma")),
        Err(SandboxError::ModuleNotFound(name)) if name == "gamma"
    ));
    assert!(matches!(
        sb.package().get_module(id(1), &String::from("alpha")),
        Err(SandboxError::NotAPackage(i)) if i == id(1)
    ));
    assert!(matches!(
        sb.package().get_module(id(2), &String::from("alpha")),
        Err(SandboxError::ObjectNotFound(i)) if i == id(2)
    ));
}

#[test]
fn current_object_is_read_with_its_reference() {
    let mut sb = SandboxBuilder::default().build(vec![]);
    sb.create_object(thing(1, 4, Owner::Immutable));
    match sb.get_object(id(1)) {
        ObjectRead::Exists(reference, object) => {
            assert_eq!(reference, (id(1), 4, ObjectDigest { hi: 1, lo: 4 }));
            assert_eq!(object.version, 4);
        }
        ObjectRead::NotExists(_) => panic!("the object exists"),
    }
    assert!(matches!(sb.get_object(id(2)), ObjectRead::NotExists(i) if i == id(2)));
}

#[test]
fn genesis_objects_are_held_by_their_identifiers() {
    let sb = SandboxBuilder::default().build(vec![
        thing(1, 1, Owner::Immutable),
        thing(2, 1, Owner::Immutable),
        thing(1, 5, Owner::Immutable),
    ]);
    assert_eq!(sb.storage().as_inner().len(), 2);
    assert_eq!(sb.storage().get_object(&id(1)).unwrap().version, 5);
}

#[test]
fn snapshot_bytes_round_trip() {
    let store = busy_store();
    let stream = store.to_bytes_compressed().unwrap();
    assert_eq!(store.to_bytes_compressed().unwrap(), stream);

    let mut other = StorageExtension::new(VecMap::new());
    other.insert_object(thing(9, 1, Owner::AddressOwner(account(1))));
    assert_eq!(other.restone_from_bytes(&stream), Ok(()));
    same_answers(&store, &other);
    assert!(other.get_object(&id(9)).is_none());
    assert_eq!(other.to_bytes(), store.to_bytes());
    assert_eq!(decompress(&stream).unwrap(), store.to_bytes());

    // The restored store goes on as the first would.
    other.insert_object(thing(2, 5, Owner::AddressOwner(account(1))));
    assert!(matches!(other.get_object_at_version(&id(2), 1), PastObjectRead::VersionFound(_, _)));
    assert!(matches!(
        other.get_object_at_version(&id(2), 6),
        PastObjectRead::VersionTooHigh { latest_version: 5, .. }
    ));
}

#[test]
fn snapshot_of_an_engine_with_packages_round_trips() {
    let mut sb = SandboxBuilder::default().build(vec![package(0x50)]);
    sb.create_object(thing(1, 1, Owner::Shared { initial_shared_version: 1 }));
    let stream = sb.storage().to_bytes_compressed().unwrap();
    let mut other = StorageExtension::new(VecMap::new());
    other.restone_from_bytes(&stream).unwrap();
    assert_eq!(other.to_bytes(), sb.storage().to_bytes());
    match &other.get_object(&id(0x50)).unwrap().data {
        Data::Package(p) => {
            assert_eq!(p.modules.len(), 2);
            assert_eq!(p.modules[1].name, "beta");
            assert_eq!(p.modules[1].bytes, vec![3]);
        }
        Data::Move(_) => panic!("the package came back as a Move object"),
    }
    assert_eq!(other.get_object(&id(1)).unwrap().owner, Owner::Shared { initial_shared_version: 1 });
}

#[test]
fn failed_restore_leaves_the_store_as_it_was() {
    let mut store = busy_store();
    let before = store.to_bytes();

    assert_eq!(store.restone_from_bytes(&[1, 2, 3]), Err(SnapshotError::Decompression));
    assert_eq!(store.to_bytes(), before);

    let no_snapshot = compress(&[1, 2, 3]).unwrap();
    assert_eq!(store.restone_from_bytes(&no_snapshot), Err(SnapshotError::Decoding));
    assert_eq!(store.to_bytes(), before);

    let mut cut = before.clone();
    cut.truncate(before.len() - 1);
    assert_eq!(store.restone_from_bytes(&compress(&cut).unwrap()), Err(SnapshotError::Decoding));
    assert_eq!(store.to_bytes(), before);

    let mut longer = before.clone();
    longer.push(0);
    assert_eq!(store.restone_from_bytes(&compress(&longer).unwrap()), Err(SnapshotError::Decoding));
    assert_eq!(store.to_bytes(), before);

    assert_eq!(store.restone_from_bytes(&compress(&before).unwrap()), Ok(()));
    assert_eq!(store.to_bytes(), before);
}

#[test]
fn empty_store_has_an_empty_binary_form() {
    let mut store = StorageExtension::new(VecMap::new());
    // Seventeen maps of two empty lists each, and the checkpoint.
    assert_eq!(store.to_bytes(), vec![0u8; 17 * 16 + 8]);
    store.bump_checkpoint();
    let bytes = store.to_bytes();
    assert_eq!(&bytes[..17 * 16], &vec![0u8; 17 * 16][..]);
    assert_eq!(&bytes[17 * 16..], &[1, 0, 0, 0, 0, 0, 0, 0]);
}

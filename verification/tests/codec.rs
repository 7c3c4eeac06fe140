use sui_sandbox::base_types::{ObjectDigest, ObjectID, Owner, SuiAddress, TransactionDigest};
use sui_sandbox::codec::{get_list, get_opt, put_list, put_opt, Reader, Wire};
use sui_sandbox::collections::{KeySet, VecMap};
use sui_sandbox::object::{Data, MoveObject, Object, StructTag};
use sui_sandbox::rpc_types::{BalanceChange, ObjectChange};

fn written<T: Wire>(value: &T) -> Vec<u8> {
    let mut out = vec![0xEE];
    value.encode(&mut out);
    assert_eq!(out[0], 0xEE);
    out.remove(0);
    out
}

fn read_back<T: Wire>(bytes: &[u8]) -> Option<T> {
    let mut reader = Reader::new(bytes);
    let value = T::decode(&mut reader)?;
    if reader.is_done() {
        Some(value)
    } else {
        None
    }
}

fn le16(n: u128) -> Vec<u8> {
    n.to_le_bytes().to_vec()
}

#[test]
fn numbers_are_little_endian() {
    assert_eq!(written(&0x0102_0304_0506_0708u64), vec![8, 7, 6, 5, 4, 3, 2, 1]);
    assert_eq!(written(&1u128), le16(1));
    assert_eq!(written(&7u8), vec![7]);
    assert_eq!(written(&true), vec![1]);
    assert_eq!(written(&false), vec![0]);
    assert_eq!(written(&-1i128), vec![0xff; 16]);
    assert_eq!(read_back::<u64>(&[8, 7, 6, 5, 4, 3, 2, 1]), Some(0x0102_0304_0506_0708));
    assert_eq!(read_back::<i128>(&[0xff; 16]), Some(-1));
    assert_eq!(read_back::<i128>(&written(&i128::MIN)), Some(i128::MIN));
    assert_eq!(read_back::<bool>(&[2]), None);
    assert_eq!(read_back::<u64>(&[1, 2, 3]), None);
    assert_eq!(read_back::<u8>(&[]), None);
}

#[test]
fn text_and_bytes_carry_their_length() {
    assert_eq!(written(&String::from("ab")), vec![2, 0, 0, 0, 0, 0, 0, 0, b'a', b'b']);
    assert_eq!(written(&String::from("é")), vec![2, 0, 0, 0, 0, 0, 0, 0, 0xc3, 0xa9]);
    assert_eq!(written(&vec![9u8, 8]), vec![2, 0, 0, 0, 0, 0, 0, 0, 9, 8]);
    assert_eq!(read_back::<String>(&written(&String::from("héllo"))), Some(String::from("héllo")));
    assert_eq!(read_back::<String>(&[1, 0, 0, 0, 0, 0, 0, 0, 0xff]), None);
    assert_eq!(read_back::<String>(&[3, 0, 0, 0, 0, 0, 0, 0, b'a']), None);
    assert_eq!(read_back::<Vec<u8>>(&[0, 0, 0, 0, 0, 0, 0, 0]), Some(vec![]));
    assert_eq!(read_back::<Vec<u8>>(&[0xff; 8]), None);
}

#[test]
fn identifiers_and_owners_have_fixed_forms() {
    let address = SuiAddress { hi: 1, lo: 2 };
    let mut expected = le16(1);
    expected.extend(le16(2));
    assert_eq!(written(&address), expected);
    assert_eq!(written(&ObjectID { hi: 1, lo: 2 }), expected);
    assert_eq!(written(&TransactionDigest { hi: 1, lo: 2 }), expected);
    assert_eq!(written(&ObjectDigest { hi: 1, lo: 2 }), expected);

    let mut owned = vec![0u8];
    owned.extend(expected.clone());
    assert_eq!(written(&Owner::AddressOwner(address)), owned);
    owned[0] = 1;
    assert_eq!(written(&Owner::ObjectOwner(address)), owned);
    assert_eq!(written(&Owner::Shared { initial_shared_version: 3 }), vec![2, 3, 0, 0, 0, 0, 0, 0, 0]);
    assert_eq!(written(&Owner::Immutable), vec![3]);
    for owner in [
        Owner::AddressOwner(address),
        Owner::ObjectOwner(address),
        Owner::Shared { initial_shared_version: 3 },
        Owner::Immutable,
    ] {
        assert_eq!(read_back::<Owner>(&written(&owner)), Some(owner));
    }
    assert_eq!(read_back::<Owner>(&[4]), None);
    assert_eq!(read_back::<Owner>(&[3, 0]), None);
}

#[test]
fn lists_and_options_are_read_back() {
    let mut out = Vec::new();
    put_list(&vec![String::from("a"), String::from("bc")], &mut out);
    assert_eq!(
        out,
        vec![2, 0, 0, 0, 0, 0, 0, 0, 1, 0, 0, 0, 0, 0, 0, 0, b'a', 2, 0, 0, 0, 0, 0, 0, 0, b'b', b'c']
    );
    let mut reader = Reader::new(&out);
    assert_eq!(get_list::<String>(&mut reader), Some(vec![String::from("a"), String::from("bc")]));
    assert!(reader.is_done());
    // A length that is more than the bytes that follow is refused.
    let mut reader = Reader::new(&[5, 0, 0, 0, 0, 0, 0, 0, 1]);
    assert_eq!(get_list::<u8>(&mut reader), None);

    let mut out = Vec::new();
    put_opt(&Some(7u64), &mut out);
    put_opt(&None::<u64>, &mut out);
    assert_eq!(out, vec![1, 7, 0, 0, 0, 0, 0, 0, 0, 0]);
    let mut reader = Reader::new(&out);
    assert_eq!(get_opt::<u64>(&mut reader), Some(Some(7)));
    assert_eq!(get_opt::<u64>(&mut reader), Some(None));
    assert!(reader.is_done());
    let mut reader = Reader::new(&[2]);
    assert_eq!(get_opt::<u64>(&mut reader), None);
}

#[test]
fn sets_and_maps_refuse_a_key_twice() {
    let mut set = KeySet::new();
    set.insert(3u64);
    set.insert(5u64);
    let bytes = written(&set);
    assert_eq!(bytes, vec![2, 0, 0, 0, 0, 0, 0, 0, 3, 0, 0, 0, 0, 0, 0, 0, 5, 0, 0, 0, 0, 0, 0, 0]);
    let back = read_back::<KeySet<u64>>(&bytes).unwrap();
    assert_eq!(back.len(), 2);
    assert!(back.contains(&3) && back.contains(&5));
    let mut twice = bytes.clone();
    twice[16] = 3;
    assert!(read_back::<KeySet<u64>>(&twice).is_none());

    let mut map = VecMap::new();
    map.insert(3u64, String::from("x"));
    map.insert(5u64, String::from("y"));
    let bytes = written(&map);
    let back = read_back::<VecMap<u64, String>>(&bytes).unwrap();
    assert_eq!(back.get(&3).map(|s| s.as_str()), Some("x"));
    assert_eq!(back.get(&5).map(|s| s.as_str()), Some("y"));
    assert_eq!(back.len(), 2);
    let mut twice = bytes.clone();
    twice[16] = 3;
    assert!(read_back::<VecMap<u64, String>>(&twice).is_none());
    // Two keys and one value.
    let mut keys = Vec::new();
    put_list(&vec![1u64, 2u64], &mut keys);
    put_list(&vec![String::from("x")], &mut keys);
    assert!(read_back::<VecMap<u64, String>>(&keys).is_none());
}

#[test]
fn objects_and_changes_are_read_back() {
    let tag = StructTag {
        address: ObjectID { hi: 0, lo: 2 },
        module: String::from("coin"),
        name: String::from("Coin"),
        type_params: vec![String::from("T")],
    };
    let object = Object {
        id: ObjectID { hi: 0, lo: 5 },
        version: 7,
        owner: Owner::Immutable,
        digest: ObjectDigest { hi: 1, lo: 1 },
        previous_transaction: TransactionDigest { hi: 2, lo: 2 },
        storage_rebate: 9,
        data: Data::Move(MoveObject {
            type_: tag,
            has_public_transfer: true,
            contents: vec![1, 2, 3],
        }),
    };
    let bytes = written(&object);
    let back = read_back::<Object>(&bytes).unwrap();
    assert_eq!(written(&back), bytes);
    assert_eq!(back.version, 7);
    assert_eq!(back.storage_rebate, 9);
    assert!(back.is_coin());
    assert!(read_back::<Object>(&bytes[..bytes.len() - 1]).is_none());

    let change = ObjectChange::Mutated {
        sender: SuiAddress { hi: 0, lo: 1 },
        owner: Owner::Immutable,
        object_type: StructTag {
            address: ObjectID { hi: 0, lo: 2 },
            module: String::from("m"),
            name: String::from("N"),
            type_params: vec![],
        },
        object_id: ObjectID { hi: 0, lo: 5 },
        version: 8,
        previous_version: 7,
        digest: ObjectDigest { hi: 1, lo: 1 },
    };
    let bytes = written(&change);
    assert_eq!(bytes[0], 2);
    assert!(matches!(
        read_back::<ObjectChange>(&bytes),
        Some(ObjectChange::Mutated { version: 8, previous_version: 7, .. })
    ));
    let balance = BalanceChange { owner: Owner::Immutable, coin_type: String::from("T"), amount: -5 };
    let back = read_back::<BalanceChange>(&written(&balance)).unwrap();
    assert_eq!(back.amount, -5);
    assert_eq!(back.coin_type, "T");
}

#[test]
fn many_keys_are_found_after_insertions_and_removals() {
    let mut map: VecMap<(ObjectID, String), u64> = VecMap::new();
    let key = |n: u64| (ObjectID { hi: n as u128, lo: (n % 7) as u128 }, format!("m{}", n % 13));
    for n in 0..300u64 {
        assert!(map.insert(key(n), n));
    }
    assert_eq!(map.len(), 300);
    for n in 0..300u64 {
        assert_eq!(map.get(&key(n)), Some(&n));
    }
    for n in (0..300u64).filter(|n| n % 3 == 0) {
        assert_eq!(map.remove(&key(n)), Some(n));
        assert_eq!(map.remove(&key(n)), None);
    }
    assert_eq!(map.len(), 200);
    for n in 0..300u64 {
        assert_eq!(map.contains_key(&key(n)), n % 3 != 0);
        assert_eq!(map.get(&key(n)), if n % 3 == 0 { None } else { Some(&n) });
    }
    assert!(!map.insert(key(1), 1000));
    assert_eq!(map.get(&key(1)), Some(&1000));
    assert_eq!(map.len(), 200);

    let mut set: KeySet<String> = KeySet::new();
    for n in 0..200u64 {
        assert!(set.insert(format!("kind {}", n)));
        assert!(!set.insert(format!("kind {}", n)));
    }
    for n in 0..200u64 {
        assert!(set.contains(&format!("kind {}", n)));
    }
    assert!(set.remove(&String::from("kind 7")));
    assert!(!set.contains(&String::from("kind 7")));
    assert!(set.contains(&String::from("kind 8")));
    assert_eq!(set.len(), 199);
    // A set that was read back finds its members too.
    let back = read_back::<KeySet<String>>(&written(&set)).unwrap();
    assert!(back.contains(&String::from("kind 199")));
    assert!(!back.contains(&String::from("kind 7")));
}

use sui_sandbox::base_types::{ObjectDigest, ObjectID, Owner, SuiAddress, TransactionDigest};
use sui_sandbox::collections::VecMap;
use sui_sandbox::object::{Data, MoveObject, Object, StructTag};
use sui_sandbox::sandbox::engines::clock::ClockEngine;
use sui_sandbox::sandbox::extensions::time_extension::TimeExtension;
use sui_sandbox::sandbox::{CoinExtension, SandboxBuilder, StorageExtension};

const SUI: &str = "0x0000000000000000000000000000000000000000000000000000000000000002::sui::SUI";
const USD: &str = "0x0000000000000000000000000000000000000000000000000000000000000042::usd::USD";

fn id(n: u128) -> ObjectID {
    ObjectID { hi: 0, lo: n }
}

fn account(n: u128) -> SuiAddress {
    SuiAddress { hi: 0, lo: n }
}

fn odigest(n: u128) -> ObjectDigest {
    ObjectDigest { hi: 1, lo: n }
}

fn forty_bytes(n: u128, value: u64) -> Vec<u8> {
    let mut contents = vec![0u8; 16];
    contents.extend_from_slice(&n.to_be_bytes());
    contents.extend_from_slice(&value.to_le_bytes());
    contents
}

fn move_object(n: u128, owner: Owner, address: u128, module: &str, name: &str, params: Vec<&str>, contents: Vec<u8>) -> Object {
    Object {
        id: id(n),
        version: 1,
        owner,
        digest: odigest(n),
        previous_transaction: TransactionDigest { hi: 0, lo: 0 },
        storage_rebate: 0,
        data: Data::Move(MoveObject {
            type_: StructTag {
                address: id(address),
                module: String::from(module),
                name: String::from(name),
                type_params: params.into_iter().map(String::from).collect(),
            },
            has_public_transfer: true,
            contents,
        }),
    }
}

fn coin(n: u128, owner: Owner, currency: &str, value: u64) -> Object {
    move_object(n, owner, 2, "coin", "Coin", vec![currency], forty_bytes(n, value))
}

fn clock(time: u64) -> Object {
    move_object(6, Owner::Shared { initial_shared_version: 1 }, 2, "clock", "Clock", vec![], forty_bytes(6, time))
}

fn empty_store() -> StorageExtension {
    StorageExtension::new(VecMap::new())
}

#[test]
fn minted_coin_has_the_layout_of_a_coin() {
    let mut store = empty_store();
    let owner = account(0xa);
    let coin_id = ObjectID { hi: 0x0102, lo: 0x0304 };
    let minted = store.mint_gas_coin(owner, 0x0a0b, coin_id, odigest(1));
    assert_eq!(minted, coin_id);
    let object = store.get_object(&coin_id).unwrap();
    assert_eq!(object.version, 1);
    assert_eq!(object.owner, Owner::AddressOwner(owner));
    assert_eq!(object.digest, odigest(1));
    assert_eq!(object.previous_transaction, TransactionDigest { hi: 0, lo: 0 });
    assert_eq!(object.storage_rebate, 0);
    assert!(object.is_coin());
    assert!(object.is_gas_coin());
    assert_eq!(object.as_coin_maybe(), Some(0x0a0b));
    assert_eq!(object.coin_type_maybe().map(|t| t.as_str()), Some(SUI));
    match &object.data {
        Data::Move(inner) => {
            let mut expected = vec![0u8; 14];
            expected.extend_from_slice(&[0x01, 0x02]);
            expected.extend_from_slice(&[0u8; 14]);
            expected.extend_from_slice(&[0x03, 0x04]);
            expected.extend_from_slice(&[0x0b, 0x0a, 0, 0, 0, 0, 0, 0]);
            assert_eq!(inner.contents, expected);
            assert!(inner.has_public_transfer);
            assert_eq!(inner.type_.module, "coin");
            assert_eq!(inner.type_.name, "Coin");
            assert_eq!(inner.type_.address, id(2));
        }
        Data::Package(_) => panic!("a coin is no package"),
    }
}

#[test]
fn balance_counts_the_coins_of_one_currency() {
    let mut store = empty_store();
    let a = Owner::AddressOwner(account(0xa));
    let b = Owner::AddressOwner(account(0xb));
    store.insert_object(coin(1, a, SUI, 100));
    store.insert_object(coin(2, a, SUI, 23));
    store.insert_object(coin(3, a, USD, 7));
    store.insert_object(coin(4, b, SUI, 1000));
    store.insert_object(move_object(5, a, 0x42, "thing", "Thing", vec![], vec![1]));
    assert_eq!(store.calculate_balance(account(0xa), None), 123);
    assert_eq!(store.calculate_balance(account(0xa), Some(String::from(SUI))), 123);
    assert_eq!(store.calculate_balance(account(0xa), Some(String::from(USD))), 7);
    assert_eq!(store.calculate_balance(account(0xb), None), 1000);
    assert_eq!(store.calculate_balance(account(0xc), None), 0);
    assert_eq!(store.checked_balance(account(0xa), None), Some(123));
    store.remove_object(id(1));
    assert_eq!(store.calculate_balance(account(0xa), None), 23);
}

#[test]
fn balance_that_does_not_fit_is_reported_as_nothing() {
    let mut store = empty_store();
    let a = Owner::AddressOwner(account(0xa));
    store.insert_object(coin(1, a, SUI, u64::MAX));
    assert_eq!(store.checked_balance(account(0xa), None), Some(u64::MAX));
    store.insert_object(coin(2, a, SUI, 1));
    assert_eq!(store.checked_balance(account(0xa), None), None);
}

#[test]
fn what_is_no_framework_coin_counts_as_nothing() {
    let mut store = empty_store();
    let a = Owner::AddressOwner(account(0xa));
    // A coin type of another package.
    store.insert_object(move_object(1, a, 3, "coin", "Coin", vec![SUI], forty_bytes(1, 50)));
    // A framework coin whose contents do not decode.
    store.insert_object(move_object(2, a, 2, "coin", "Coin", vec![SUI], vec![1, 2, 3]));
    // A framework coin with two type arguments.
    store.insert_object(move_object(3, a, 2, "coin", "Coin", vec![SUI, USD], forty_bytes(3, 50)));
    assert_eq!(store.calculate_balance(account(0xa), None), 0);
    assert!(!store.get_object(&id(1)).unwrap().is_coin());
    assert!(store.get_object(&id(2)).unwrap().is_coin());
    assert_eq!(store.get_object(&id(2)).unwrap().as_coin_maybe(), None);
    assert!(!store.get_object(&id(3)).unwrap().is_coin());
    assert_eq!(store.get_coins(account(0xa), None).len(), 1);
    assert_eq!(store.get_coins(account(0xa), None)[0].balance, 0);
}

#[test]
fn coins_and_gas_payment_are_listed() {
    let mut store = empty_store();
    let a = Owner::AddressOwner(account(0xa));
    store.insert_object(coin(1, a, SUI, 100));
    store.insert_object(coin(2, a, USD, 7));
    store.insert_object(coin(3, a, SUI, 5));
    let mut coins = store.get_coins(account(0xa), None);
    coins.sort_by_key(|c| c.coin_object_id);
    assert_eq!(coins.len(), 2);
    assert_eq!(coins[0].coin_object_id, id(1));
    assert_eq!(coins[0].balance, 100);
    assert_eq!(coins[0].coin_type, SUI);
    assert_eq!(coins[0].version, 1);
    assert_eq!(coins[0].digest, odigest(1));
    assert_eq!(coins[1].coin_object_id, id(3));
    assert_eq!(coins[1].balance, 5);
    let usd = store.get_coins(account(0xa), Some(String::from(USD)));
    assert_eq!(usd.len(), 1);
    assert_eq!(usd[0].coin_object_id, id(2));
    assert_eq!(usd[0].coin_type, USD);
    let mut payment = store.get_default_gas_payment(account(0xa));
    payment.sort();
    assert_eq!(payment, vec![(id(1), 1, odigest(1)), (id(3), 1, odigest(3))]);
    assert!(store.get_default_gas_payment(account(0xb)).is_empty());
}

#[test]
fn publication_tops_the_sender_up_once() {
    let mut sb = SandboxBuilder::default().build(vec![clock(0)]);
    let a = account(0xa);
    let (balance, payment) = sb.package_mut().prepare_publish(a, id(70), odigest(70));
    assert_eq!(balance, Some(1_000_000_000_000));
    assert_eq!(payment, vec![(id(70), 1, odigest(70))]);
    let (balance, payment) = sb.package_mut().prepare_publish(a, id(71), odigest(71));
    assert_eq!(balance, Some(1_000_000_000_000));
    assert_eq!(payment.len(), 1);
    assert!(sb.storage().get_object(&id(71)).is_none());
}

#[test]
fn clock_moves_only_when_told() {
    let mut store = StorageExtension::new(VecMap::new());
    store.insert_object(clock(1000));
    assert_eq!(store.current_timestamp_ms(), 1000);
    assert_eq!(store.timestamp_maybe(), Some(1000));
    store.set_timestamp_ms(0x0102_0304_0506_0708);
    assert_eq!(store.current_timestamp_ms(), 0x0102_0304_0506_0708);
    match &store.get_object(&id(6)).unwrap().data {
        Data::Move(inner) => {
            assert_eq!(inner.contents.len(), 40);
            assert_eq!(&inner.contents[..32], &forty_bytes(6, 0)[..32]);
            assert_eq!(&inner.contents[32..], &[8, 7, 6, 5, 4, 3, 2, 1]);
            assert_eq!(inner.type_.name, "Clock");
        }
        Data::Package(_) => panic!("the clock is no package"),
    }
    store.advance_ms(2);
    assert_eq!(store.current_timestamp_ms(), 0x0102_0304_0506_070a);
    let mut engine = ClockEngine::new(&mut store);
    engine.set_time(50);
    engine.advance(25);
    assert_eq!(engine.get_time(), 75);
    engine.reset();
    assert_eq!(engine.get_time(), 0);
    assert_eq!(ClockEngine::new(&store).get_time(), 0);
    assert_eq!(store.get_object(&id(6)).unwrap().version, 1);
}

#[test]
fn store_without_a_clock_shows_no_time() {
    let mut store = StorageExtension::new(VecMap::new());
    assert_eq!(store.timestamp_maybe(), None);
    store.insert_object(move_object(6, Owner::Immutable, 2, "clock", "Clock", vec![], vec![1, 2]));
    assert_eq!(store.timestamp_maybe(), None);
}

#[test]
fn engine_clock_is_the_clock_of_the_store() {
    let mut sb = SandboxBuilder::default().build(vec![clock(77)]);
    assert_eq!(sb.clock().get_time(), 77);
    sb.clock_mut().advance(3);
    assert_eq!(sb.clock().get_time(), 80);
    assert_eq!(sb.gas_price(), 10);
    assert!(!sb.auth_extension.is_disabled());
    assert_eq!(sb.epoch, 0);
}

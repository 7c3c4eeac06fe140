use sui_sandbox::base_types::{ObjectDigest, ObjectID, Owner, SuiAddress, TransactionDigest};
use sui_sandbox::collections::DeepClone;
use sui_sandbox::error::SandboxError;
use sui_sandbox::object::{Data, MoveModule, MoveObject, MovePackage, Object, StructTag};
use sui_sandbox::rpc_types::{ObjectChange, PastObjectRead, TransactionFilter};
use sui_sandbox::sandbox::transaction_pipeline::stages::{
    ExecutionInput, ExecutionOutcome, ValidationInput,
};
use sui_sandbox::sandbox::transaction_pipeline::PipelineResult;
use sui_sandbox::sandbox::{AuthMode, CoinExtension, MoveVMSandbox, SandboxBuilder};
use sui_sandbox::transaction::{
    ExecutionError, GasData, InnerTemporaryStore, InputObjectKind, ProgrammableTransaction,
    Signature, TransactionData, TransactionEffects, TransactionKind,
};

const SUI: &str = "0x0000000000000000000000000000000000000000000000000000000000000002::sui::SUI";
const USD: &str = "0x0000000000000000000000000000000000000000000000000000000000000042::usd::USD";

fn id(n: u128) -> ObjectID {
    ObjectID { hi: 0, lo: n }
}

fn account(n: u128) -> SuiAddress {
    SuiAddress { hi: 0, lo: n }
}

fn odigest(n: u128) -> ObjectDigest {
    ObjectDigest { hi: 1, lo: n }
}

fn tdigest(n: u128) -> TransactionDigest {
    TransactionDigest { hi: 9, lo: n }
}

fn forty_bytes(n: u128, value: u64) -> Vec<u8> {
    let mut contents = vec![0u8; 16];
    contents.extend_from_slice(&n.to_be_bytes());
    contents.extend_from_slice(&value.to_le_bytes());
    contents
}

fn clock(time: u64) -> Object {
    Object {
        id: id(6),
        version: 1,
        owner: Owner::Shared { initial_shared_version: 1 },
        digest: odigest(6),
        previous_transaction: tdigest(0),
        storage_rebate: 0,
        data: Data::Move(MoveObject {
            type_: StructTag {
                address: id(2),
                module: String::from("clock"),
                name: String::from("Clock"),
                type_params: vec![],
            },
            has_public_transfer: false,
            contents: forty_bytes(6, time),
        }),
    }
}

fn coin(n: u128, version: u64, owner: Owner, currency: &str, value: u64) -> Object {
    Object {
        id: id(n),
        version,
        owner,
        digest: odigest(n * 100 + version as u128),
        previous_transaction: tdigest(0),
        storage_rebate: 0,
        data: Data::Move(MoveObject {
            type_: StructTag {
                address: id(2),
                module: String::from("coin"),
                name: String::from("Coin"),
                type_params: vec![String::from(currency)],
            },
            has_public_transfer: true,
            contents: forty_bytes(n, value),
        }),
    }
}

fn thing(n: u128, version: u64, owner: Owner) -> Object {
    Object {
        id: id(n),
        version,
        owner,
        digest: odigest(n * 100 + version as u128),
        previous_transaction: tdigest(0),
        storage_rebate: 0,
        data: Data::Move(MoveObject {
            type_: StructTag {
                address: id(0x42),
                module: String::from("thing"),
                name: String::from("Thing"),
                type_params: vec![],
            },
            has_public_transfer: true,
            contents: vec![7],
        }),
    }
}

fn package(n: u128) -> Object {
    Object {
        id: id(n),
        version: 1,
        owner: Owner::Immutable,
        digest: odigest(n),
        previous_transaction: tdigest(0),
        storage_rebate: 0,
        data: Data::Package(MovePackage {
            modules: vec![
                MoveModule { name: String::from("alpha"), bytes: vec![1, 2] },
                MoveModule { name: String::from("beta"), bytes: vec![3] },
            ],
            tables: vec![],
        }),
    }
}

fn sandbox() -> MoveVMSandbox {
    SandboxBuilder::default().build(vec![clock(1234)])
}

fn tx(n: u128, sender: SuiAddress, payment: Vec<Object>, inputs: Vec<InputObjectKind>) -> TransactionData {
    TransactionData {
        digest: tdigest(n),
        sender,
        kind: TransactionKind::ProgrammableTransaction(ProgrammableTransaction {
            inputs: vec![],
            commands: vec![],
        }),
        kind_label: String::from("ProgrammableTransaction"),
        gas_data: GasData {
            payment: payment.iter().map(|o| (o.id, o.version, o.digest)).collect(),
            owner: sender,
            price: 10,
            budget: 1000,
        },
        input_objects: Ok(inputs),
        raw: vec![0xAA, n as u8],
    }
}

fn signed_by(signer: SuiAddress) -> Signature {
    Signature { bytes: vec![1, 2, 3], signer: Some(signer) }
}

fn submit(tx_data: TransactionData, signatures: Vec<Signature>) -> ValidationInput {
    ValidationInput { tx_data, signatures, verification: Ok(()), gas_check: Ok(()) }
}

fn refusal(result: PipelineResult<ExecutionInput>) -> Vec<String> {
    match result {
        PipelineResult::EarlyReturn(response) => {
            assert!(response.effects.is_none());
            assert!(response.events.is_none());
            assert!(response.object_changes.is_none());
            assert!(response.balance_changes.is_none());
            assert!(response.timestamp_ms.is_none());
            assert!(response.checkpoint.is_none());
            assert!(response.confirmed_local_execution.is_none());
            assert!(response.raw_effects.is_empty());
            response.errors
        }
        PipelineResult::Continue(_) => panic!("the transaction was not refused"),
    }
}

fn passed(result: PipelineResult<ExecutionInput>) -> ExecutionInput {
    match result {
        PipelineResult::Continue(input) => input,
        PipelineResult::EarlyReturn(response) => {
            panic!("the transaction was refused: {:?}", response.errors)
        }
    }
}

fn owner_text(n: &str) -> String {
    format!("0x{:0>64}", n)
}

#[test]
fn armed_refusal_serves_once_and_changes_no_object() {
    let a = account(0xa);
    let mut sb = sandbox();
    let gas = coin(20, 1, Owner::AddressOwner(a), SUI, 500);
    sb.create_object(gas.deep_clone());
    sb.reject_next_tx(String::from("R"));

    let first = tx(1, a, vec![gas.deep_clone()], vec![]);
    let errors = refusal(sb.transaction_mut().validate(submit(first, vec![signed_by(a)])));
    assert_eq!(errors, vec![String::from("R")]);
    let recorded = sb.storage().get_transaction(&tdigest(1)).unwrap();
    assert_eq!(recorded.errors, vec![String::from("R")]);
    assert_eq!(recorded.raw_transaction, vec![0xAA, 1]);
    assert_eq!(sb.storage().get_object(&id(20)).unwrap().version, 1);
    assert_eq!(sb.storage().calculate_balance(a, None), 500);
    assert!(sb.storage().query(Some(TransactionFilter::FromAddress(a))).is_empty());
    assert_eq!(sb.storage().query(None).len(), 1);

    let second = tx(2, a, vec![gas], vec![]);
    let input = passed(sb.transaction_mut().validate(submit(second, vec![signed_by(a)])));
    assert_eq!(input.tx_data.digest, tdigest(2));
    assert_eq!(input.checked_objects.inputs.len(), 1);
    assert!(sb.storage().get_transaction(&tdigest(2)).is_none());
}

#[test]
fn unsigned_owner_is_refused_and_override_is_scoped() {
    let a = account(0xa);
    let b = account(0xb);
    let mut sb = sandbox();
    // Minting needs no signature.
    let minted = sb.storage_mut().mint_gas_coin(a, 900, id(30), odigest(30));
    assert_eq!(minted, id(30));
    let gas = (id(30), 1u64, odigest(30));
    let mut unsigned = tx(1, b, vec![], vec![]);
    unsigned.gas_data.payment = vec![gas];

    let errors = refusal(sb.transaction_mut().validate(submit(unsigned, vec![signed_by(b)])));
    assert_eq!(
        errors,
        vec![format!("Object owned by {} accessed without owner signature", owner_text("a"))]
    );

    // The engine's own transaction passes without any signature.
    let mut own = tx(2, b, vec![], vec![]);
    own.gas_data.payment = vec![gas];
    let input = passed(sb.package_mut().publish_package(own, Ok(())));
    assert_eq!(input.checked_objects.inputs.len(), 1);
    assert!(!sb.auth_extension.is_disabled());

    // The next ordinary submission is checked again.
    let mut again = tx(3, b, vec![], vec![]);
    again.gas_data.payment = vec![gas];
    let errors = refusal(sb.transaction_mut().validate(submit(again, vec![])));
    assert_eq!(
        errors,
        vec![format!("Object owned by {} accessed without owner signature", owner_text("a"))]
    );
    // With the owner among the signers it passes.
    let mut signed = tx(4, b, vec![], vec![]);
    signed.gas_data.payment = vec![gas];
    passed(sb.transaction_mut().validate(submit(signed, vec![signed_by(b), signed_by(a)])));
}

#[test]
fn override_restores_a_disabled_guard_too() {
    let a = account(0xa);
    let mut sb = sandbox();
    sb.disable_signature_checks();
    sb.storage_mut().mint_gas_coin(a, 900, id(30), odigest(30));
    let mut t = tx(1, a, vec![], vec![]);
    t.gas_data.payment = vec![(id(30), 1, odigest(30))];
    let errors = refusal(sb.transaction_mut().validate_as(submit(t, vec![]), AuthMode::Enabled));
    assert_eq!(
        errors,
        vec![format!("Object owned by {} accessed without owner signature", owner_text("a"))]
    );
    assert!(sb.auth_extension.is_disabled());
    let mut next = tx(2, a, vec![], vec![]);
    next.gas_data.payment = vec![(id(30), 1, odigest(30))];
    passed(sb.transaction_mut().validate(submit(next, vec![])));
}

#[test]
fn each_failure_of_validation_has_its_message() {
    let a = account(0xa);
    let mut sb = sandbox();
    sb.create_object(thing(40, 1, Owner::Shared { initial_shared_version: 1 }));

    let mut bad_signature = submit(tx(1, a, vec![], vec![]), vec![]);
    bad_signature.verification = Err(String::from("signature is not valid"));
    assert_eq!(
        refusal(sb.transaction_mut().validate(bad_signature)),
        vec![String::from("signature is not valid")]
    );

    let mut no_gas = tx(2, a, vec![], vec![]);
    no_gas.gas_data.payment = vec![(id(0x1f), 1, odigest(0))];
    assert_eq!(
        refusal(sb.transaction_mut().validate(submit(no_gas, vec![]))),
        vec![format!("Gas payment object {} not found", owner_text("1f"))]
    );

    let no_object = tx(3, a, vec![], vec![InputObjectKind::MovePackage(id(0x77))]);
    assert_eq!(
        refusal(sb.transaction_mut().validate(submit(no_object, vec![]))),
        vec![format!("No object {}", owner_text("77"))]
    );

    let mut no_inputs = tx(4, a, vec![], vec![]);
    no_inputs.input_objects = Err(String::from("duplicate input"));
    assert_eq!(
        refusal(sb.transaction_mut().validate(submit(no_inputs, vec![]))),
        vec![String::from("duplicate input")]
    );

    let mut no_budget = submit(
        tx(5, a, vec![], vec![InputObjectKind::SharedMoveObject {
            id: id(40),
            initial_shared_version: 1,
            mutable: true,
        }]),
        vec![],
    );
    no_budget.gas_check = Err(String::from("gas price is under the reference price"));
    assert_eq!(
        refusal(sb.transaction_mut().validate(no_budget)),
        vec![String::from("gas price is under the reference price")]
    );

    // Every refusal was recorded under its digest.
    for n in 1..=5 {
        assert!(sb.storage().get_transaction(&tdigest(n)).is_some());
    }
    // A failed verification is not looked at while the guard is off.
    sb.disable_signature_checks();
    let mut unchecked = submit(tx(6, a, vec![], vec![]), vec![]);
    unchecked.verification = Err(String::from("signature is not valid"));
    passed(sb.transaction_mut().validate(unchecked));
}

fn outcome(written: Vec<Object>, tombstones: Vec<(ObjectID, u64)>, wrapped: Vec<ObjectID>) -> ExecutionOutcome {
    ExecutionOutcome {
        temporary_store: InnerTemporaryStore::new(written),
        effects: TransactionEffects {
            tombstones,
            wrapped: wrapped.into_iter().map(|i| (i, 0, odigest(0))).collect(),
            rendered: vec![0xE0],
            raw: vec![0xE1, 0xE2],
        },
        events: vec![0xE3],
        execution_result: Ok(()),
    }
}

#[test]
fn executed_transaction_is_classified_applied_and_recorded() {
    let a = account(0xa);
    let b = account(0xb);
    let owned_a = Owner::AddressOwner(a);
    let owned_b = Owner::AddressOwner(b);
    let mut sb = sandbox();
    sb.create_object(thing(50, 1, owned_a)); // will be mutated
    sb.create_object(thing(51, 1, owned_a)); // will be transferred
    sb.create_object(thing(52, 3, owned_a)); // will be deleted
    sb.create_object(thing(53, 4, owned_a)); // will be wrapped
    sb.create_object(coin(54, 1, owned_a, SUI, 30)); // will be deleted
    sb.storage_mut().bump_checkpoint();

    let input = passed(sb.transaction_mut().validate(submit(tx(1, a, vec![], vec![]), vec![])));
    let written = vec![
        thing(50, 2, owned_a),
        thing(51, 2, owned_b),
        coin(55, 1, owned_a, SUI, 70),
        coin(56, 1, owned_b, USD, 5),
        package(57),
        thing(58, 1, owned_b),
    ];
    let tombstones = vec![(id(52), 4), (id(53), 5), (id(54), 2), (id(99), 1)];
    let response = sb
        .transaction_mut()
        .execute_function(input, outcome(written, tombstones, vec![id(53)]));

    let changes = response.object_changes.as_ref().unwrap();
    assert_eq!(changes.len(), 9);
    assert!(matches!(&changes[0], ObjectChange::Mutated { object_id, previous_version: 1, version: 2, owner, sender, .. }
        if *object_id == id(50) && *owner == owned_a && *sender == a));
    assert!(matches!(&changes[1], ObjectChange::Transferred { object_id, recipient, version: 2, .. }
        if *object_id == id(51) && *recipient == owned_b));
    assert!(matches!(&changes[2], ObjectChange::Created { object_id, owner, version: 1, digest, .. }
        if *object_id == id(55) && *owner == owned_a && *digest == odigest(5501)));
    assert!(matches!(&changes[3], ObjectChange::Created { object_id, .. } if *object_id == id(56)));
    assert!(matches!(&changes[4], ObjectChange::Published { package_id, modules, version: 1, .. }
        if *package_id == id(57) && *modules == vec![String::from("alpha"), String::from("beta")]));
    assert!(matches!(&changes[5], ObjectChange::Created { object_id, object_type, .. }
        if *object_id == id(58) && object_type.name == "Thing"));
    assert!(matches!(&changes[6], ObjectChange::Deleted { object_id, version: 4, .. } if *object_id == id(52)));
    assert!(matches!(&changes[7], ObjectChange::Wrapped { object_id, version: 5, .. } if *object_id == id(53)));
    assert!(matches!(&changes[8], ObjectChange::Deleted { object_id, version: 2, .. } if *object_id == id(54)));

    let balances = response.balance_changes.as_ref().unwrap();
    assert_eq!(balances.len(), 2);
    assert_eq!(balances[0].owner, owned_a);
    assert_eq!(balances[0].coin_type, SUI);
    assert_eq!(balances[0].amount, 40);
    assert_eq!(balances[1].owner, owned_b);
    assert_eq!(balances[1].coin_type, USD);
    assert_eq!(balances[1].amount, 5);

    assert_eq!(response.digest, tdigest(1));
    assert_eq!(response.raw_transaction, vec![0xAA, 1]);
    assert_eq!(response.effects, Some(vec![0xE0]));
    assert_eq!(response.raw_effects, vec![0xE1, 0xE2]);
    assert_eq!(response.events, Some(vec![0xE3]));
    assert_eq!(response.timestamp_ms, Some(1234));
    assert_eq!(response.checkpoint, Some(1));
    assert_eq!(response.confirmed_local_execution, Some(true));
    assert!(response.errors.is_empty());

    // The store holds what was written, and no longer what was deleted.
    let store = sb.storage();
    assert_eq!(store.get_object(&id(50)).unwrap().version, 2);
    assert_eq!(store.get_object(&id(51)).unwrap().owner, owned_b);
    assert!(store.get_object(&id(52)).is_none());
    assert!(store.get_object(&id(54)).is_none());
    assert!(store.get_object(&id(57)).is_some());
    assert!(matches!(store.get_object_at_version(&id(52), 3), PastObjectRead::ObjectDeleted(_)));
    assert_eq!(store.calculate_balance(a, None), 70);
    let mut of_b: Vec<ObjectID> = store.objects_for(&owned_b).iter().map(|o| o.id).collect();
    of_b.sort();
    assert_eq!(of_b, vec![id(51), id(56), id(58)]);

    // The transaction is recorded, and found by what it changed.
    assert_eq!(store.get_transaction(&tdigest(1)).unwrap().digest, tdigest(1));
    let found = store.query(Some(TransactionFilter::ChangedObject(id(58))));
    assert_eq!(found.len(), 1);
    assert_eq!(found[0].digest, tdigest(1));
    assert_eq!(store.query(Some(TransactionFilter::ToAddress(b))).len(), 1);
    assert_eq!(store.query(Some(TransactionFilter::AffectedObject(id(52)))).len(), 1);
    assert!(store.query(Some(TransactionFilter::ChangedObject(id(52)))).is_empty());
    assert!(store.query(Some(TransactionFilter::ChangedObject(id(57)))).is_empty());
}

#[test]
fn failed_execution_is_reported_not_raised() {
    let a = account(0xa);
    let mut sb = sandbox();
    let input = passed(sb.transaction_mut().validate(submit(tx(1, a, vec![], vec![]), vec![])));
    let mut failed = outcome(vec![], vec![], vec![]);
    failed.execution_result = Err(ExecutionError {
        message: String::from("out of gas"),
        source: Some(String::from("budget exhausted")),
    });
    let response = sb.transaction_mut().execute_function(input, failed);
    assert_eq!(response.errors, vec![String::from("out of gas")]);
    assert_eq!(response.object_changes.as_ref().unwrap().len(), 0);
    assert_eq!(response.balance_changes.as_ref().unwrap().len(), 0);
    assert!(sb.storage().get_transaction(&tdigest(1)).is_some());
}

#[test]
fn dry_run_leaves_the_store_as_it_was() {
    let a = account(0xa);
    let owned_a = Owner::AddressOwner(a);
    let mut sb = sandbox();
    sb.create_object(thing(50, 1, owned_a));
    sb.storage_mut().mint_gas_coin(a, 100, id(60), odigest(60));

    let wanted = tx(1, a, vec![], vec![]);
    let amount = match sb.transaction().dry_run_funding(&wanted) {
        Ok(Some(amount)) => amount,
        _ => panic!("a transaction that names no payment needs a coin"),
    };
    assert_eq!(amount, 1100);
    let reference = sb.transaction_mut().prepare_dry_run(a, amount, id(61), odigest(61));
    assert_eq!(reference, (id(61), 1, odigest(61)));
    assert_eq!(sb.storage().get_object(&id(61)).unwrap().as_coin_maybe(), Some(1100));

    let mut t = tx(1, a, vec![], vec![]);
    t.gas_data.payment = vec![reference];
    let input = passed(sb.transaction_mut().validate_dry_run(t, Ok(())));
    assert!(!sb.auth_extension.is_disabled());

    let mut ran = outcome(vec![thing(50, 2, owned_a), thing(70, 1, owned_a)], vec![], vec![]);
    ran.execution_result = Err(ExecutionError {
        message: String::from("abort"),
        source: Some(String::from("code 7")),
    });
    let report = sb.transaction_mut().dry_run_transaction(input, ran, Some(id(61)));
    assert_eq!(report.object_changes.len(), 2);
    assert!(matches!(&report.object_changes[0], ObjectChange::Mutated { object_id, .. } if *object_id == id(50)));
    assert!(matches!(&report.object_changes[1], ObjectChange::Created { object_id, .. } if *object_id == id(70)));
    assert_eq!(report.effects, vec![0xE0]);
    assert_eq!(report.events, vec![0xE3]);
    assert_eq!(report.input, vec![0xAA, 1]);
    assert_eq!(report.execution_error_source, Some(String::from("code 7")));
    assert_eq!(report.suggested_gas_price, Some(10));

    let store = sb.storage();
    assert_eq!(store.get_object(&id(50)).unwrap().version, 1);
    assert!(store.get_object(&id(70)).is_none());
    assert!(store.get_object(&id(61)).is_none());
    assert!(matches!(store.get_object_at_version(&id(61), 1), PastObjectRead::ObjectNotExists(_)));
    assert_eq!(store.calculate_balance(a, None), 100);
    assert!(store.query(None).is_empty());
}

#[test]
fn refused_dry_run_reports_the_refusal() {
    let a = account(0xa);
    let mut sb = sandbox();
    sb.reject_next_tx(String::from("no"));
    let t = tx(1, a, vec![], vec![]);
    let response = match sb.transaction_mut().validate_dry_run(tx(1, a, vec![], vec![]), Ok(())) {
        PipelineResult::EarlyReturn(response) => response,
        PipelineResult::Continue(_) => panic!("the dry run was not refused"),
    };
    assert!(sb.storage().get_transaction(&tdigest(1)).is_none());
    let report = sb.transaction_mut().dry_run_refused(response, &t, &vec![0xD0], None);
    assert_eq!(report.effects, vec![0xD0]);
    assert!(report.events.is_empty());
    assert!(report.object_changes.is_empty());
    assert!(report.balance_changes.is_empty());
    assert_eq!(report.input, vec![0xAA, 1]);
    assert_eq!(report.execution_error_source, Some(String::from("no")));
    assert_eq!(report.suggested_gas_price, Some(10));
}

#[test]
fn dry_run_needs_a_coin_only_where_no_payment_is_named() {
    let a = account(0xa);
    let mut sb = sandbox();
    let gas = coin(20, 1, Owner::AddressOwner(a), SUI, u64::MAX - 999);
    sb.create_object(gas.deep_clone());
    let named = tx(1, a, vec![gas], vec![]);
    assert!(matches!(sb.transaction().dry_run_funding(&named), Ok(None)));
    let mut unnamed = tx(2, a, vec![], vec![]);
    unnamed.gas_data.budget = 999;
    assert!(matches!(sb.transaction().dry_run_funding(&unnamed), Ok(Some(u64::MAX))));
    unnamed.gas_data.budget = 1000;
    match sb.transaction().dry_run_funding(&unnamed) {
        Err(e) => {
            assert!(matches!(e, SandboxError::GasBudgetTooHigh));
            assert_eq!(e.message(), "Gas budget and balance do not fit in 64 bits");
        }
        Ok(_) => panic!("the sum does not fit"),
    }
    sb.create_object(coin(21, 1, Owner::AddressOwner(a), SUI, 5000));
    unnamed.gas_data.budget = 1;
    assert!(matches!(
        sb.transaction().dry_run_funding(&unnamed),
        Err(SandboxError::GasBudgetTooHigh)
    ));
}

#[test]
fn only_created_coins_add_to_a_balance() {
    let a = account(0xa);
    let owned_a = Owner::AddressOwner(a);
    let mut sb = sandbox();
    sb.create_object(coin(80, 1, owned_a, SUI, 100));
    sb.create_object(coin(81, 1, owned_a, SUI, 40));
    let input = passed(sb.transaction_mut().validate(submit(tx(1, a, vec![], vec![]), vec![])));
    // A coin that was held before is written again, one unchanged and one
    // with less in it; one coin is new.
    let written = vec![
        coin(80, 2, owned_a, SUI, 100),
        coin(81, 2, owned_a, SUI, 10),
        coin(82, 1, owned_a, SUI, 7),
    ];
    let response = sb.transaction_mut().execute_function(input, outcome(written, vec![], vec![]));
    let balances = response.balance_changes.as_ref().unwrap();
    assert_eq!(balances.len(), 1);
    assert_eq!(balances[0].owner, owned_a);
    assert_eq!(balances[0].coin_type, SUI);
    assert_eq!(balances[0].amount, 7);
    assert_eq!(sb.storage().calculate_balance(a, None), 117);
}

#[test]
fn record_is_written_once() {
    let a = account(0xa);
    let mut sb = sandbox();
    sb.reject_next_tx(String::from("first"));
    refusal(sb.transaction_mut().validate(submit(tx(1, a, vec![], vec![]), vec![])));
    sb.reject_next_tx(String::from("second"));
    let errors = refusal(sb.transaction_mut().validate(submit(tx(1, a, vec![], vec![]), vec![])));
    assert_eq!(errors, vec![String::from("second")]);
    let held = sb.storage().get_transaction(&tdigest(1)).unwrap();
    assert_eq!(held.errors, vec![String::from("first")]);
    assert_eq!(sb.storage().query(None).len(), 1);
}

#[test]
fn written_objects_are_held_once_by_identifier() {
    let a = Owner::AddressOwner(account(0xa));
    let store = InnerTemporaryStore::new(vec![
        thing(3, 1, a),
        thing(1, 1, a),
        thing(3, 2, a),
        thing(2, 1, a),
    ]);
    assert_eq!(store.len(), 3);
    assert_eq!(store.object_at(0).id, id(3));
    assert_eq!(store.object_at(0).version, 2);
    assert_eq!(store.object_at(1).id, id(1));
    assert_eq!(store.object_at(2).id, id(2));
    assert_eq!(store.get(id(3)).unwrap().version, 2);
    assert!(store.get(id(4)).is_none());
}

use sui_sandbox::base_types::{ObjectDigest, ObjectID, Owner, SuiAddress, TransactionDigest};
use sui_sandbox::object::StructTag;
use sui_sandbox::rpc_types::{ObjectChange, TransactionFilter};
use sui_sandbox::sandbox::storage::indices::TransactionIndices;
use sui_sandbox::transaction::{
    CallArg, Command, GasData, MoveCall, ObjectArg, ProgrammableTransaction, TransactionData,
    TransactionKind,
};

fn id(n: u128) -> ObjectID {
    ObjectID { hi: 0, lo: n }
}

fn account(n: u128) -> SuiAddress {
    SuiAddress { hi: 7, lo: n }
}

fn digest(n: u128) -> TransactionDigest {
    TransactionDigest { hi: 9, lo: n }
}

fn tag() -> StructTag {
    StructTag {
        address: id(0x42),
        module: String::from("thing"),
        name: String::from("Thing"),
        type_params: vec![],
    }
}

fn owned_input(n: u128) -> CallArg {
    CallArg::Object(ObjectArg::ImmOrOwnedObject((id(n), 1, ObjectDigest { hi: 0, lo: 0 })))
}

fn call(package: u128, module: &str, function: &str) -> Command {
    Command::MoveCall(MoveCall {
        package: id(package),
        module: String::from(module),
        function: String::from(function),
        arguments: vec![],
    })
}

fn tx(n: u128, sender: SuiAddress, inputs: Vec<CallArg>, commands: Vec<Command>) -> TransactionData {
    TransactionData {
        digest: digest(n),
        sender,
        kind: TransactionKind::ProgrammableTransaction(ProgrammableTransaction { inputs, commands }),
        kind_label: String::from("ProgrammableTransaction"),
        gas_data: GasData { payment: vec![], owner: sender, price: 10, budget: 1000 },
        input_objects: Ok(vec![]),
        raw: vec![n as u8],
    }
}

fn created(n: u128, sender: SuiAddress, owner: Owner) -> ObjectChange {
    ObjectChange::Created {
        sender,
        owner,
        object_type: tag(),
        object_id: id(n),
        version: 1,
        digest: ObjectDigest { hi: 0, lo: 0 },
    }
}

fn mutated(n: u128, sender: SuiAddress, owner: Owner) -> ObjectChange {
    ObjectChange::Mutated {
        sender,
        owner,
        object_type: tag(),
        object_id: id(n),
        version: 2,
        previous_version: 1,
        digest: ObjectDigest { hi: 0, lo: 0 },
    }
}

fn found(indices: &TransactionIndices, filter: TransactionFilter) -> Vec<TransactionDigest> {
    let set = indices.query(&filter);
    let mut out: Vec<TransactionDigest> = (0..set.len()).map(|i| *set.get(i)).collect();
    out.sort();
    out
}

fn two_transactions() -> TransactionIndices {
    let a = account(1);
    let b = account(2);
    let mut indices = TransactionIndices::new();
    indices.index_transaction(
        &tx(1, a, vec![], vec![call(0x50, "shop", "open")]),
        &[created(100, a, Owner::AddressOwner(b))],
    );
    indices.index_transaction(
        &tx(2, b, vec![owned_input(100)], vec![call(0x50, "shop", "close"), call(0x51, "bank", "pay")]),
        &[mutated(100, b, Owner::AddressOwner(b))],
    );
    indices
}

#[test]
fn input_object_query_is_exact() {
    let indices = two_transactions();
    assert_eq!(found(&indices, TransactionFilter::InputObject(id(100))), vec![digest(2)]);
    assert_eq!(
        found(&indices, TransactionFilter::ChangedObject(id(100))),
        vec![digest(1), digest(2)]
    );
    assert_eq!(
        found(&indices, TransactionFilter::AffectedObject(id(100))),
        vec![digest(1), digest(2)]
    );
    assert_eq!(found(&indices, TransactionFilter::InputObject(id(101))), vec![]);
}

#[test]
fn address_queries_are_exact() {
    let indices = two_transactions();
    assert_eq!(found(&indices, TransactionFilter::FromAddress(account(1))), vec![digest(1)]);
    assert_eq!(found(&indices, TransactionFilter::FromAddress(account(2))), vec![digest(2)]);
    assert_eq!(found(&indices, TransactionFilter::ToAddress(account(2))), vec![digest(1)]);
    assert_eq!(found(&indices, TransactionFilter::ToAddress(account(1))), vec![]);
    assert_eq!(
        found(&indices, TransactionFilter::FromAndToAddress { from: account(1), to: account(2) }),
        vec![digest(1)]
    );
    assert_eq!(
        found(&indices, TransactionFilter::FromAndToAddress { from: account(2), to: account(2) }),
        vec![]
    );
    assert_eq!(
        found(&indices, TransactionFilter::FromOrToAddress { addr: account(2) }),
        vec![digest(1), digest(2)]
    );
    assert_eq!(
        found(&indices, TransactionFilter::FromOrToAddress { addr: account(1) }),
        vec![digest(1)]
    );
}

#[test]
fn move_function_queries_narrow_by_module_and_function() {
    let indices = two_transactions();
    let by = |module: Option<&str>, function: Option<&str>, package: u128| {
        found(
            &indices,
            TransactionFilter::MoveFunction {
                package: id(package),
                module: module.map(String::from),
                function: function.map(String::from),
            },
        )
    };
    assert_eq!(by(None, None, 0x50), vec![digest(1), digest(2)]);
    assert_eq!(by(None, None, 0x51), vec![digest(2)]);
    assert_eq!(by(Some("shop"), None, 0x50), vec![digest(1), digest(2)]);
    assert_eq!(by(Some("shop"), Some("open"), 0x50), vec![digest(1)]);
    assert_eq!(by(Some("shop"), Some("close"), 0x50), vec![digest(2)]);
    assert_eq!(by(Some("bank"), Some("pay"), 0x50), vec![]);
    assert_eq!(by(Some("bank"), None, 0x51), vec![digest(2)]);
    // A function without a module asks for the package alone.
    assert_eq!(by(None, Some("open"), 0x50), vec![digest(1), digest(2)]);
}

#[test]
fn kind_queries_are_exact_and_checkpoint_matches_nothing() {
    let a = account(1);
    let mut indices = two_transactions();
    let mut system = tx(3, a, vec![], vec![]);
    system.kind = TransactionKind::System(vec![1]);
    system.kind_label = String::from("ChangeEpoch");
    indices.index_transaction(&system, &[]);
    assert_eq!(
        found(&indices, TransactionFilter::TransactionKind(String::from("ProgrammableTransaction"))),
        vec![digest(1), digest(2)]
    );
    assert_eq!(
        found(&indices, TransactionFilter::TransactionKind(String::from("ChangeEpoch"))),
        vec![digest(3)]
    );
    assert_eq!(
        found(
            &indices,
            TransactionFilter::TransactionKindIn(vec![
                String::from("ChangeEpoch"),
                String::from("ProgrammableTransaction"),
                String::from("Other"),
            ])
        ),
        vec![digest(1), digest(2), digest(3)]
    );
    assert_eq!(found(&indices, TransactionFilter::TransactionKindIn(vec![])), vec![]);
    assert_eq!(found(&indices, TransactionFilter::Checkpoint(0)), vec![]);
}

#[test]
fn every_kind_of_change_is_indexed() {
    let a = account(1);
    let b = account(2);
    let mut indices = TransactionIndices::new();
    let changes = vec![
        ObjectChange::Transferred {
            sender: a,
            recipient: Owner::AddressOwner(b),
            object_type: tag(),
            object_id: id(1),
            version: 2,
            digest: ObjectDigest { hi: 0, lo: 0 },
        },
        ObjectChange::Deleted { sender: a, object_type: tag(), object_id: id(2), version: 2 },
        ObjectChange::Wrapped { sender: a, object_type: tag(), object_id: id(3), version: 2 },
        ObjectChange::Published {
            package_id: id(4),
            version: 1,
            digest: ObjectDigest { hi: 0, lo: 0 },
            modules: vec![String::from("m")],
        },
        created(5, a, Owner::Shared { initial_shared_version: 1 }),
    ];
    indices.index_transaction(&tx(1, a, vec![CallArg::Pure(vec![1])], vec![Command::Other(vec![])]), &changes);
    let one = vec![digest(1)];
    assert_eq!(found(&indices, TransactionFilter::ChangedObject(id(1))), one);
    assert_eq!(found(&indices, TransactionFilter::ToAddress(b)), one);
    assert_eq!(found(&indices, TransactionFilter::ChangedObject(id(2))), vec![]);
    assert_eq!(found(&indices, TransactionFilter::AffectedObject(id(2))), one);
    assert_eq!(found(&indices, TransactionFilter::ChangedObject(id(3))), one);
    assert_eq!(found(&indices, TransactionFilter::AffectedObject(id(4))), vec![]);
    assert_eq!(found(&indices, TransactionFilter::ChangedObject(id(5))), one);
    assert_eq!(found(&indices, TransactionFilter::ToAddress(a)), vec![]);
}

#[test]
fn shared_and_received_inputs_are_indexed() {
    let a = account(1);
    let mut indices = TransactionIndices::new();
    let inputs = vec![
        CallArg::Object(ObjectArg::SharedObject { id: id(1), initial_shared_version: 1, mutable: true }),
        CallArg::Object(ObjectArg::Receiving((id(2), 1, ObjectDigest { hi: 0, lo: 0 }))),
        CallArg::Pure(vec![9]),
    ];
    indices.index_transaction(&tx(1, a, inputs, vec![]), &[]);
    assert_eq!(found(&indices, TransactionFilter::InputObject(id(1))), vec![digest(1)]);
    assert_eq!(found(&indices, TransactionFilter::InputObject(id(2))), vec![digest(1)]);
    assert_eq!(found(&indices, TransactionFilter::InputObject(id(9))), vec![]);
}

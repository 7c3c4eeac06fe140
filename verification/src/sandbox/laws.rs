//! What holds of the engine across its operations.

use crate::base_types::{Owner, SuiAddress, TransactionDigest};
use crate::collections::seq_view;
use crate::rpc_types::ObjectChangeView;
use crate::sandbox::engines::transaction::after_execution;
use crate::sandbox::extensions::changes::object_changes;
use crate::sandbox::storage::indices::{lemma_index_mentions, metadata_of};
use crate::sandbox::storage::StorageView;
use crate::sandbox::transaction_pipeline::stages::ExecutionOutcome;
use crate::transaction::{InnerTemporaryStore, TransactionData};
use crate::error::SandboxError;
use crate::sandbox::engines::transaction::{after_validation, overridden, recorded};
use crate::sandbox::extensions::auth_extension::{signed_by, AuthMode};
use crate::sandbox::extensions::changes::{
    gas_kinds, resolve_all, resolve_one, lemma_resolve_error_stays,
};
use crate::sandbox::transaction_pipeline::stages::{validation_verdict, ValidationInput};
use crate::sandbox::SandboxView;
use crate::object::ObjectView;
use crate::transaction::{InputObjectKind, Signature};
use crate::utils::error_response;
use vstd::prelude::*;

verus! {

/// Whether the first coin that the transaction pays with is in the store
/// and belongs to `account`, and `account` is not among the signers.
pub open spec fn pays_with_unsigned_coin(
    sandbox: SandboxView,
    input: ValidationInput,
    account: SuiAddress,
) -> bool {
    let payment = input.tx_data.gas_data.payment@;
    &&& payment.len() > 0
    &&& sandbox.storage.objects.contains_key(payment[0].0)
    &&& sandbox.storage.objects[payment[0].0].owner == Owner::AddressOwner(account)
    &&& !signed_by(input.signatures@, account)
}

/// While the guard is on, a transaction whose signatures verify but that
/// pays with a coin of an account that did not sign is refused, with the
/// error that names the account.
pub proof fn lemma_unsigned_payment_is_refused(
    sandbox: SandboxView,
    input: ValidationInput,
    account: SuiAddress,
)
    requires
        sandbox.auth.mode() == AuthMode::Enabled,
        input.verification is Ok,
        pays_with_unsigned_coin(sandbox, input, account),
    ensures
        validation_verdict(sandbox, input) == Err::<Seq<(InputObjectKind, ObjectView)>, SandboxError>(
            SandboxError::OwnershipViolation { owner: account },
        ),
{
    let gas = gas_kinds(input.tx_data.gas_data.payment@);
    let given = Some(input.signatures@);
    assert(resolve_all(sandbox.storage, sandbox.auth, given, gas, true, 0) is Ok);
    assert(resolve_one(sandbox.storage, sandbox.auth, given, gas[0], true) == Err::<
        ObjectView,
        SandboxError,
    >(SandboxError::OwnershipViolation { owner: account }));
    assert(resolve_all(sandbox.storage, sandbox.auth, given, gas, true, 1) == Err::<Seq<(InputObjectKind, ObjectView)>, SandboxError>(
        SandboxError::OwnershipViolation { owner: account },
    ));
    lemma_resolve_error_stays(sandbox.storage, sandbox.auth, given, gas, true, 1, gas.len() as int);
}

/// While the guard is off, no transaction is refused for its signatures or
/// for the ownership of its objects.
pub proof fn lemma_guard_off_checks_nothing(sandbox: SandboxView, input: ValidationInput)
    requires
        sandbox.auth.mode() == AuthMode::Disabled,
    ensures
        validation_verdict(sandbox, input) matches Err(e) ==> !(e is OwnershipViolation) && !(e
            is InvalidSignature),
{
    let given = Some(input.signatures@);
    let gas = gas_kinds(input.tx_data.gas_data.payment@);
    lemma_resolve_never_ownership(sandbox, given, gas, true, gas.len() as int);
    match input.tx_data.input_objects {
        Ok(kinds) => {
            lemma_resolve_never_ownership(sandbox, given, kinds@, false, kinds@.len() as int);
        },
        Err(_) => {},
    }
}

proof fn lemma_resolve_never_ownership(
    sandbox: SandboxView,
    given: Option<Seq<Signature>>,
    kinds: Seq<InputObjectKind>,
    gas: bool,
    upto: int,
)
    requires
        sandbox.auth.mode() == AuthMode::Disabled,
    ensures
        resolve_all(sandbox.storage, sandbox.auth, given, kinds, gas, upto) matches Err(e) ==> (e
            is GasObjectNotFound || e is ObjectNotFound),
    decreases upto,
{
    if upto > 0 {
        lemma_resolve_never_ownership(sandbox, given, kinds, gas, upto - 1);
    }
}

/// An operation of the engine itself that validates with the guard off
/// leaves the guard as it was, and leaves every object as it was: so the
/// next transaction that is submitted is checked as before. While the guard
/// is on, a next transaction that pays with a coin of an account that did
/// not sign is refused.
pub proof fn lemma_override_is_scoped(
    before: SandboxView,
    own: ValidationInput,
    next: ValidationInput,
    account: SuiAddress,
)
    requires
        before.auth.mode() == AuthMode::Enabled,
        next.verification is Ok,
        pays_with_unsigned_coin(before, next, account),
    ensures
        ({
            let after = SandboxView {
                auth: before.auth,
                ..after_validation(overridden(before, AuthMode::Disabled), own)
            };
            &&& after.auth == before.auth
            &&& after.storage.objects == before.storage.objects
            &&& validation_verdict(after, next) == Err::<Seq<(InputObjectKind, ObjectView)>, SandboxError>(
                SandboxError::OwnershipViolation { owner: account },
            )
        }),
{
    let after = SandboxView {
        auth: before.auth,
        ..after_validation(overridden(before, AuthMode::Disabled), own)
    };
    assert(after.storage.objects == before.storage.objects);
    lemma_unsigned_payment_is_refused(after, next, account);
}

/// An armed refusal serves once: the transaction that meets it is refused
/// with its reason as the one error, the refusal is no longer armed, and
/// nothing of the store changes but that the response is recorded.
pub proof fn lemma_refusal_serves_once(before: SandboxView, input: ValidationInput, reason: Seq<char>)
    requires
        before.armed == Some(reason),
    ensures
        ({
            let after = after_validation(before, input);
            let response = error_response(input.tx_data, seq![reason]);
            &&& after.armed is None
            &&& response.errors == seq![reason]
            &&& after.storage == recorded(before.storage, response)
            &&& after.storage.objects == before.storage.objects
            &&& after.storage.address_objects == before.storage.address_objects
            &&& after.storage.object_addresses == before.storage.object_addresses
            &&& after.storage.timelines == before.storage.timelines
            &&& after.storage.transaction_indices == before.storage.transaction_indices
            &&& after.auth == before.auth
            &&& after_validation(after, input).armed is None
        }),
{
}


impl StorageView {
    /// Whether every digest that the index of transactions holds is the
    /// digest of a recorded transaction.
    pub open spec fn index_within_records(self) -> bool {
        forall|d: TransactionDigest| #[trigger]
            self.transaction_indices.mentions(d) ==> self.transactions.contains_key(d)
    }
}

/// Carrying out the changes of a transaction touches neither the recorded
/// transactions nor their index nor the checkpoint counter.
pub proof fn lemma_changes_keep_records(
    storage: StorageView,
    changes: Seq<ObjectChangeView>,
    store: InnerTemporaryStore,
)
    ensures
        storage.apply_changes(changes, store).transactions == storage.transactions,
        storage.apply_changes(changes, store).transaction_indices == storage.transaction_indices,
        storage.apply_changes(changes, store).checkpoint == storage.checkpoint,
    decreases changes.len(),
{
    if changes.len() > 0 {
        lemma_changes_keep_records(storage, changes.drop_last(), store);
    }
}

/// The execution of a transaction never moves the checkpoint counter, and
/// it keeps the index of transactions within the recorded transactions:
/// the one digest that it brings into the index is the digest under which
/// it records the response.
pub proof fn lemma_execution_keeps_records(
    storage: StorageView,
    tx: TransactionData,
    outcome: ExecutionOutcome,
)
    requires
        storage.index_within_records(),
    ensures
        after_execution(storage, tx, outcome).checkpoint == storage.checkpoint,
        after_execution(storage, tx, outcome).index_within_records(),
        after_execution(storage, tx, outcome).transactions.contains_key(tx.digest),
{
    let changed = object_changes(
        storage,
        outcome.temporary_store.written(),
        outcome.effects,
        tx.sender,
    );
    lemma_changes_keep_records(storage, changed, outcome.temporary_store);
    let after = after_execution(storage, tx, outcome);
    let m = metadata_of(tx, changed);
    assert forall|d: TransactionDigest| #[trigger]
        after.transaction_indices.mentions(d) implies after.transactions.contains_key(d) by {
        lemma_index_mentions(storage.transaction_indices, m, d);
        if d != m.digest {
            assert(storage.transaction_indices.mentions(d));
        }
    }
}

/// The validation of a transaction never moves the checkpoint counter,
/// and it keeps the index of transactions within the recorded
/// transactions.
pub proof fn lemma_validation_keeps_records(before: SandboxView, input: ValidationInput)
    requires
        before.storage.index_within_records(),
    ensures
        after_validation(before, input).storage.checkpoint == before.storage.checkpoint,
        after_validation(before, input).storage.index_within_records(),
{
    let after = after_validation(before, input).storage;
    assert forall|d: TransactionDigest| #[trigger]
        after.transaction_indices.mentions(d) implies after.transactions.contains_key(d) by {
        assert(before.storage.transaction_indices.mentions(d));
    }
}

} // verus!

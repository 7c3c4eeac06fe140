//! Transactions: validating, taking in what the execution handed back,
//! and dry runs.

use crate::base_types::{ObjectDigest, ObjectID, ObjectRef, Owner, SuiAddress};
use crate::error::SandboxError;
use crate::collections::{seq_view, DeepClone};
use crate::rpc_types::{
    BalanceChangeView, DryRunTransactionBlockResponse, ObjectChangeView, TransactionBlockResponse,
    TransactionBlockResponseView,
};
use crate::sandbox::extensions::auth_extension::AuthMode;
use crate::sandbox::extensions::changes::{balance_changes, object_changes};
use crate::sandbox::extensions::coins::{
    gas_coin, lemma_balance_sum_grows, target_type, CoinExtension,
};
use crate::sandbox::storage::StorageView;
use crate::sandbox::transaction_pipeline::stages::{
    few_enough, refuses, validation_verdict, DryRunStage, EffectsStage, ExecutionInput,
    ExecutionOutcome, ExecutionStage, StorageStage, TransactionOutput, ValidationInput,
    ValidationStage,
};
use crate::sandbox::transaction_pipeline::{Pipeline, PipelineResult, TransactionStage};
use crate::sandbox::{MoveVMSandbox, SandboxView};
use crate::transaction::{ExecutionError, Signature, TransactionData};
use crate::utils::error_response;
use vstd::prelude::*;

verus! {

/// The face of the engine for transactions.
pub struct TransactionEngine<S> {
    pub sandbox: S,
}

impl<S> TransactionEngine<S> {
    pub fn new(storage: S) -> (r: Self)
        ensures
            r.sandbox == storage,
    {
        Self { sandbox: storage }
    }
}

/// The errors that a response lists for the outcome of an execution.
pub open spec fn execution_errors(result: Result<(), ExecutionError>) -> Seq<Seq<char>> {
    match result {
        Err(e) => seq![e.message@],
        Ok(_) => Seq::empty(),
    }
}

/// The response to a transaction that was executed: what it did, the time
/// of the clock and the checkpoint of the store, and the error of the
/// execution, if it failed.
pub open spec fn executed_response(
    storage: StorageView,
    tx: TransactionData,
    outcome: ExecutionOutcome,
    changed: Seq<ObjectChangeView>,
    balances: Seq<BalanceChangeView>,
) -> TransactionBlockResponseView {
    TransactionBlockResponseView {
        digest: tx.digest,
        raw_transaction: tx.raw@,
        effects: Some(outcome.effects.rendered@),
        events: Some(outcome.events@),
        object_changes: Some(changed),
        balance_changes: Some(balances),
        timestamp_ms: storage.timestamp(),
        confirmed_local_execution: Some(true),
        checkpoint: Some(storage.checkpoint),
        errors: execution_errors(outcome.execution_result),
        raw_effects: outcome.effects.raw@,
    }
}

/// The store with `response` recorded under its digest, unless a record
/// is held under that digest already.
pub open spec fn recorded(storage: StorageView, response: TransactionBlockResponseView) -> StorageView {
    storage.record(response.digest, response)
}

/// The engine after a transaction was validated: an armed refusal is
/// taken, and a response that ends the run is recorded. A transaction that
/// passes changes nothing.
pub open spec fn after_validation(before: SandboxView, input: ValidationInput) -> SandboxView {
    match before.armed {
        Some(reason) => SandboxView {
            armed: None,
            storage: recorded(before.storage, error_response(input.tx_data, seq![reason])),
            ..before
        },
        None => match validation_verdict(before, input) {
            Err(e) => SandboxView {
                storage: recorded(before.storage, error_response(input.tx_data, seq![e.text()])),
                ..before
            },
            Ok(_) => before,
        },
    }
}

/// What the validation of a transaction hands back: the refusal that is
/// armed, the first failure, or the checked input objects.
pub open spec fn validated(
    before: SandboxView,
    input: ValidationInput,
    result: PipelineResult<ExecutionInput>,
) -> bool {
    match before.armed {
        Some(reason) => refuses(result, input.tx_data, reason),
        None => match validation_verdict(before, input) {
            Err(e) => refuses(result, input.tx_data, e.text()),
            Ok(checked) => match result {
                PipelineResult::Continue(handed) => handed.tx_data == input.tx_data
                    && handed.checked_objects@ == checked,
                PipelineResult::EarlyReturn(_) => false,
            },
        },
    }
}

/// The store after an executed transaction was applied and recorded.
pub open spec fn after_execution(
    storage: StorageView,
    tx: TransactionData,
    outcome: ExecutionOutcome,
) -> StorageView {
    let changed = object_changes(
        storage,
        outcome.temporary_store.written(),
        outcome.effects,
        tx.sender,
    );
    let balances = balance_changes(
        storage,
        outcome.temporary_store.written(),
        outcome.effects.tombstones@,
    );
    let applied = storage.apply_transaction_effects(tx, changed, outcome.temporary_store);
    recorded(applied, executed_response(applied, tx, outcome, changed, balances))
}

/// The response to an executed transaction, on the store before it.
pub open spec fn response_to(
    storage: StorageView,
    tx: TransactionData,
    outcome: ExecutionOutcome,
) -> TransactionBlockResponseView {
    let changed = object_changes(
        storage,
        outcome.temporary_store.written(),
        outcome.effects,
        tx.sender,
    );
    let balances = balance_changes(
        storage,
        outcome.temporary_store.written(),
        outcome.effects.tombstones@,
    );
    let applied = storage.apply_transaction_effects(tx, changed, outcome.temporary_store);
    executed_response(applied, tx, outcome, changed, balances)
}

fn errors_of(result: &Result<(), ExecutionError>) -> (r: Vec<String>)
    ensures
        seq_view(r@) == execution_errors(*result),
{
    let mut errors: Vec<String> = Vec::new();
    match result {
        Err(e) => {
            errors.push(e.message.clone());
            assert(seq_view(errors@) =~= seq![e.message@]);
        },
        Ok(_) => {
            assert(seq_view(errors@) =~= Seq::<Seq<char>>::empty());
        },
    }
    errors
}

fn create_transaction_response(sandbox: &MoveVMSandbox, output: TransactionOutput) -> (r:
    TransactionBlockResponse)
    requires
        sandbox.wf(),
    ensures
        r@ == (TransactionBlockResponseView {
            digest: output.tx_data.digest,
            raw_transaction: output.tx_data.raw@,
            effects: Some(output.effects.rendered@),
            events: Some(output.events@),
            object_changes: Some(seq_view(output.object_changes@)),
            balance_changes: Some(seq_view(output.balance_changes@)),
            timestamp_ms: sandbox@.storage.timestamp(),
            confirmed_local_execution: Some(true),
            checkpoint: Some(sandbox@.storage.checkpoint),
            errors: execution_errors(output.execution_result),
            raw_effects: output.effects.raw@,
        }),
{
    let raw_transaction = output.tx_data.raw.clone();
    assert(raw_transaction@ =~= output.tx_data.raw@);
    let rendered = output.effects.rendered.clone();
    assert(rendered@ =~= output.effects.rendered@);
    let raw_effects = output.effects.raw.clone();
    assert(raw_effects@ =~= output.effects.raw@);
    TransactionBlockResponse {
        digest: output.tx_data.digest(),
        raw_transaction,
        effects: Some(rendered),
        events: Some(output.events),
        object_changes: Some(output.object_changes),
        balance_changes: Some(output.balance_changes),
        timestamp_ms: sandbox.storage.timestamp_maybe(),
        confirmed_local_execution: Some(true),
        checkpoint: Some(sandbox.storage.checkpoint()),
        errors: errors_of(&output.execution_result),
        raw_effects,
    }
}

impl<'a> TransactionEngine<&'a mut MoveVMSandbox> {
    /// Validates a transaction. Where validation ends the run, with an
    /// armed refusal or with a failure, the response is recorded and handed
    /// back; otherwise the transaction is handed back for execution, with
    /// its checked input objects.
    pub fn validate(&mut self, input: ValidationInput) -> (r: PipelineResult<ExecutionInput>)
        requires
            old(self).sandbox.wf(),
        ensures
            final(self).sandbox.wf(),
            validated(old(self).sandbox@, input, r),
            final(self).sandbox@ == after_validation(old(self).sandbox@, input),
            *final(final(self).sandbox) == *final(old(self).sandbox),
    {
        let pipeline = Pipeline::new(ValidationStage);
        match pipeline.execute(input, self.sandbox) {
            PipelineResult::Continue(handed) => PipelineResult::Continue(handed),
            PipelineResult::EarlyReturn(response) => {
                self.sandbox.storage.insert_transaction(response.digest, response.deep_clone());
                PipelineResult::EarlyReturn(response)
            },
        }
    }

    /// Validates a transaction with the guard for signatures set to `mode`,
    /// and puts the guard back as it was, whatever validation came to.
    pub fn validate_as(&mut self, input: ValidationInput, mode: AuthMode) -> (r: PipelineResult<
        ExecutionInput,
    >)
        requires
            old(self).sandbox.wf(),
        ensures
            final(self).sandbox.wf(),
            final(self).sandbox@.auth == old(self).sandbox@.auth,
            validated(overridden(old(self).sandbox@, mode), input, r),
            final(self).sandbox@ == (SandboxView {
                auth: old(self).sandbox@.auth,
                ..after_validation(overridden(old(self).sandbox@, mode), input)
            }),
            *final(final(self).sandbox) == *final(old(self).sandbox),
    {
        let prev = self.sandbox.auth_extension.set_mode(mode);
        assert(self.sandbox@ == overridden(old(self).sandbox@, mode));

        let out = self.validate(input);

        self.sandbox.auth_extension.set_mode(prev);
        proof {
            old(self).sandbox.auth_extension.lemma_with_mode(mode);
        }

        out
    }

    /// Takes in what the execution of a validated transaction handed back:
    /// derives the changes, applies them to the store, records the
    /// transaction in the index and its response under its digest, and
    /// hands the response back.
    pub fn execute_function(&mut self, input: ExecutionInput, outcome: ExecutionOutcome) -> (r:
        TransactionBlockResponse)
        requires
            old(self).sandbox.wf(),
            few_enough(outcome.temporary_store, outcome.effects),
        ensures
            final(self).sandbox.wf(),
            r@ == response_to(old(self).sandbox@.storage, input.tx_data, outcome),
            final(self).sandbox@ == (SandboxView {
                storage: after_execution(old(self).sandbox@.storage, input.tx_data, outcome),
                ..old(self).sandbox@
            }),
            *final(final(self).sandbox) == *final(old(self).sandbox),
    {
        let pipeline = Pipeline::new(ExecutionStage).and_then(EffectsStage).and_then(StorageStage);

        let response = match pipeline.execute((input, outcome), self.sandbox) {
            PipelineResult::Continue(output) => create_transaction_response(&*self.sandbox, output),
            PipelineResult::EarlyReturn(response) => response,
        };

        self.sandbox.storage.insert_transaction(response.digest, response.deep_clone());

        response
    }
}

/// The source of the failure of an execution, as a dry run reports it.
pub open spec fn error_source(result: Result<(), ExecutionError>) -> Option<Seq<char>> {
    match result {
        Err(e) => match e.source {
            Some(s) => Some(s@),
            None => None,
        },
        Ok(_) => None,
    }
}

/// The first of the errors of a response, as a dry run reports it.
pub open spec fn first_error(errors: Seq<Seq<char>>) -> Option<Seq<char>> {
    if errors.len() > 0 {
        Some(errors[0])
    } else {
        None
    }
}

/// The store after a dry run: the coin that was made for it is gone,
/// without a trace.
pub open spec fn without_coin(storage: StorageView, coin: Option<ObjectID>) -> StorageView {
    match coin {
        Some(id) => storage.remove_object_without_trace(id),
        None => storage,
    }
}

/// The view of an optional text.
pub open spec fn opt_text(o: Option<String>) -> Option<Seq<char>> {
    match o {
        Some(s) => Some(s@),
        None => None,
    }
}

fn empty_unless<T>(o: Option<Vec<T>>) -> (r: Vec<T>)
    ensures
        r@ == match o {
            Some(v) => v@,
            None => Seq::empty(),
        },
{
    match o {
        Some(v) => v,
        None => Vec::new(),
    }
}

/// What a dry run of a transaction needs for its gas: nothing where the
/// transaction names a gas payment; otherwise a coin worth the gas budget
/// and what the sender holds of the native token, which must fit in 64 bits
/// together.
pub open spec fn dry_run_funding(held: int, tx: TransactionData) -> Result<Option<u64>, SandboxError> {
    if tx.gas_data.payment@.len() > 0 {
        Ok(None)
    } else if held + tx.gas_data.budget <= u64::MAX {
        Ok(Some((held + tx.gas_data.budget) as u64))
    } else {
        Err(SandboxError::GasBudgetTooHigh)
    }
}

impl<'a> TransactionEngine<&'a MoveVMSandbox> {
    /// Decides whether a coin is to be made for the dry run of a
    /// transaction, and what it is to be worth.
    pub fn dry_run_funding(&self, tx_data: &TransactionData) -> (r: Result<Option<u64>, SandboxError>)
        requires
            self.sandbox.wf(),
        ensures
            r == dry_run_funding(self.sandbox.storage.held(tx_data.sender, None), *tx_data),
    {
        proof {
            let objects = self.sandbox.storage.owned_objects(Owner::AddressOwner(tx_data.sender));
            lemma_balance_sum_grows(objects, target_type(None), 0, objects.len() as int);
        }
        if tx_data.gas_data().payment.len() > 0 {
            return Ok(None);
        }
        let sender_balance = match self.sandbox.storage.checked_balance(tx_data.sender(), None) {
            Some(balance) => balance,
            None => {
                return Err(SandboxError::GasBudgetTooHigh);
            },
        };
        match tx_data.gas_budget().checked_add(sender_balance) {
            Some(amount) => Ok(Some(amount)),
            None => Err(SandboxError::GasBudgetTooHigh),
        }
    }
}

impl<'a> TransactionEngine<&'a mut MoveVMSandbox> {
    /// Makes the coin that pays for a dry run: a coin of the native token
    /// for the sender, worth `amount`, with the identifier and the digest
    /// that the caller chose. Returns the reference to name as the gas
    /// payment. The coin is to be handed to the end of the dry run, which
    /// removes it.
    pub fn prepare_dry_run(
        &mut self,
        sender: SuiAddress,
        amount: u64,
        id: ObjectID,
        digest: ObjectDigest,
    ) -> (r: ObjectRef)
        requires
            old(self).sandbox.wf(),
        ensures
            final(self).sandbox.wf(),
            r == (id, 1u64, digest),
            final(self).sandbox@ == (SandboxView {
                storage: old(self).sandbox@.storage.insert_object(
                    gas_coin(id, sender, amount, digest),
                ),
                ..old(self).sandbox@
            }),
            *final(final(self).sandbox) == *final(old(self).sandbox),
    {
        let coin_for_dry_run = self.sandbox.storage.mint_gas_coin(sender, amount, id, digest);
        (coin_for_dry_run, 1, digest)
    }

    /// Validates a transaction for a dry run: with the guard for signatures
    /// off and no signatures. The guard is put back as it was, whatever
    /// validation came to, and nothing is recorded.
    pub fn validate_dry_run(&mut self, tx_data: TransactionData, gas_check: Result<(), String>) -> (r:
        PipelineResult<ExecutionInput>)
        requires
            old(self).sandbox.wf(),
        ensures
            final(self).sandbox.wf(),
            final(self).sandbox@ == (SandboxView { armed: None, ..old(self).sandbox@ }),
            exists|input: ValidationInput|
                input.tx_data == tx_data && input.signatures@ == Seq::<Signature>::empty()
                    && input.gas_check == gas_check && #[trigger] validated(
                    overridden(old(self).sandbox@, AuthMode::Disabled),
                    input,
                    r,
                ),
            *final(final(self).sandbox) == *final(old(self).sandbox),
    {
        let pipeline = Pipeline::new(ValidationStage);
        let input = ValidationInput {
            tx_data,
            signatures: Vec::new(),
            verification: Ok(()),
            gas_check,
        };

        let prev = self.sandbox.auth_extension.set_mode(AuthMode::Disabled);
        assert(self.sandbox@ == overridden(old(self).sandbox@, AuthMode::Disabled));
        let out = pipeline.execute(input, self.sandbox);
        self.sandbox.auth_extension.set_mode(prev);
        proof {
            old(self).sandbox.auth_extension.lemma_with_mode(AuthMode::Disabled);
            assert(validated(overridden(old(self).sandbox@, AuthMode::Disabled), input, out));
        }

        out
    }

    /// Ends a dry run that was executed: derives the changes without
    /// applying them, removes the coin that was made for the dry run, and
    /// reports what the transaction would do.
    pub fn dry_run_transaction(
        &mut self,
        input: ExecutionInput,
        outcome: ExecutionOutcome,
        coin_to_delete: Option<ObjectID>,
    ) -> (r: DryRunTransactionBlockResponse)
        requires
            old(self).sandbox.wf(),
            few_enough(outcome.temporary_store, outcome.effects),
        ensures
            final(self).sandbox.wf(),
            final(self).sandbox@ == (SandboxView {
                storage: without_coin(old(self).sandbox@.storage, coin_to_delete),
                ..old(self).sandbox@
            }),
            r.effects@ == outcome.effects.rendered@,
            r.events == outcome.events,
            seq_view(r.object_changes@) == object_changes(
                old(self).sandbox@.storage,
                outcome.temporary_store.written(),
                outcome.effects,
                input.tx_data.sender,
            ),
            seq_view(r.balance_changes@) == balance_changes(
                old(self).sandbox@.storage,
                outcome.temporary_store.written(),
                outcome.effects.tombstones@,
            ),
            r.input@ == input.tx_data.raw@,
            opt_text(r.execution_error_source) == error_source(outcome.execution_result),
            r.suggested_gas_price == Some(old(self).sandbox@.reference_price),
            *final(final(self).sandbox) == *final(old(self).sandbox),
    {
        let pipeline = Pipeline::new(ExecutionStage).and_then(DryRunStage);

        let execution_result = pipeline.execute((input, outcome), self.sandbox);

        match coin_to_delete {
            Some(id) => {
                self.sandbox.storage.remove_object_without_trace(id);
            },
            None => {},
        }

        match execution_result {
            PipelineResult::Continue(output) => {
                let effects = output.effects.rendered.clone();
                assert(effects@ =~= output.effects.rendered@);
                let raw = output.tx_data.raw.clone();
                assert(raw@ =~= output.tx_data.raw@);
                DryRunTransactionBlockResponse {
                    effects,
                    events: output.events,
                    object_changes: output.object_changes,
                    balance_changes: output.balance_changes,
                    input: raw,
                    execution_error_source: match &output.execution_result {
                        Err(e) => match &e.source {
                            Some(s) => Some(s.clone()),
                            None => None,
                        },
                        Ok(_) => None,
                    },
                    suggested_gas_price: Some(self.sandbox.reference_price),
                }
            },
            PipelineResult::EarlyReturn(response) => {
                convert_error_response_to_dry_run(
                    &*self.sandbox,
                    response,
                    &Vec::new(),
                    &Vec::new(),
                )
            },
        }
    }

    /// Ends a dry run that validation refused: removes the coin that was
    /// made for the dry run and reports the refusal. `default_effects` is
    /// what stands for effects where the response has none.
    pub fn dry_run_refused(
        &mut self,
        response: TransactionBlockResponse,
        tx_data: &TransactionData,
        default_effects: &Vec<u8>,
        coin_to_delete: Option<ObjectID>,
    ) -> (r: DryRunTransactionBlockResponse)
        requires
            old(self).sandbox.wf(),
        ensures
            final(self).sandbox.wf(),
            final(self).sandbox@ == (SandboxView {
                storage: without_coin(old(self).sandbox@.storage, coin_to_delete),
                ..old(self).sandbox@
            }),
            refusal_report(
                response,
                tx_data.raw@,
                default_effects@,
                old(self).sandbox@.reference_price,
                r,
            ),
            *final(final(self).sandbox) == *final(old(self).sandbox),
    {
        match coin_to_delete {
            Some(id) => {
                self.sandbox.storage.remove_object_without_trace(id);
            },
            None => {},
        }
        convert_error_response_to_dry_run(&*self.sandbox, response, &tx_data.raw, default_effects)
    }
}

/// Whether `report` is the report of a dry run that ended with `response`:
/// it carries what the response reports, nothing where the response
/// reports nothing, and the first error as the source of the failure.
pub open spec fn refusal_report(
    response: TransactionBlockResponse,
    input: Seq<u8>,
    default_effects: Seq<u8>,
    reference_price: u64,
    report: DryRunTransactionBlockResponse,
) -> bool {
    &&& report.effects@ == match response.effects {
        Some(e) => e@,
        None => default_effects,
    }
    &&& report.events@ == match response.events {
        Some(e) => e@,
        None => Seq::empty(),
    }
    &&& report.object_changes@ == match response.object_changes {
        Some(c) => c@,
        None => Seq::empty(),
    }
    &&& report.balance_changes@ == match response.balance_changes {
        Some(c) => c@,
        None => Seq::empty(),
    }
    &&& report.input@ == input
    &&& opt_text(report.execution_error_source) == first_error(seq_view(response.errors@))
    &&& report.suggested_gas_price == Some(reference_price)
}

fn convert_error_response_to_dry_run(
    sandbox: &MoveVMSandbox,
    response: TransactionBlockResponse,
    input: &Vec<u8>,
    default_effects: &Vec<u8>,
) -> (r: DryRunTransactionBlockResponse)
    ensures
        refusal_report(response, input@, default_effects@, sandbox@.reference_price, r),
{
    let raw = input.clone();
    assert(raw@ =~= input@);
    let execution_error_source = if response.errors.len() > 0 {
        Some(response.errors[0].clone())
    } else {
        None
    };
    let effects = match response.effects {
        Some(e) => e,
        None => {
            let d = default_effects.clone();
            assert(d@ =~= default_effects@);
            d
        },
    };
    let events = match response.events {
        Some(e) => e,
        None => Vec::new(),
    };
    DryRunTransactionBlockResponse {
        effects,
        events,
        object_changes: empty_unless(response.object_changes),
        balance_changes: empty_unless(response.balance_changes),
        input: raw,
        execution_error_source,
        suggested_gas_price: Some(sandbox.reference_price),
    }
}

/// The engine with the guard for signatures set to `mode`.
pub open spec fn overridden(sandbox: SandboxView, mode: AuthMode) -> SandboxView {
    SandboxView { auth: sandbox.auth.with_mode(mode), ..sandbox }
}

} // verus!

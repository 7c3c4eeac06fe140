//! The stages of the pipeline: validation, execution, effects, storage,
//! and the last stage of a dry run.

use crate::collections::seq_view;
use crate::error::SandboxError;
use crate::object::ObjectView;
use crate::rpc_types::{BalanceChange, ObjectChange, TransactionBlockResponse};
use crate::sandbox::extensions::changes::{
    balance_changes, checked_objects, object_changes, Changes, CheckedInputObjects,
    MAX_BALANCE_TERMS,
};
use crate::sandbox::transaction_pipeline::{PipelineResult, TransactionStage};
use crate::sandbox::{MoveVMSandbox, SandboxView};
use crate::transaction::{
    ExecutionError, InnerTemporaryStore, InputObjectKind, Signature, TransactionData,
    TransactionEffects,
};
use crate::utils::{error_response, response_from_errors};
use vstd::prelude::*;

verus! {

/// A transaction as it is submitted, with what the checks outside the
/// engine came to: the verification of its signatures, and the check of its
/// gas budget and price against the reference price.
pub struct ValidationInput {
    pub tx_data: TransactionData,
    pub signatures: Vec<Signature>,
    pub verification: Result<(), String>,
    pub gas_check: Result<(), String>,
}

/// A transaction that passed validation, with its input objects.
pub struct ExecutionInput {
    pub tx_data: TransactionData,
    pub checked_objects: CheckedInputObjects,
}

/// What the execution of a transaction handed back.
pub struct ExecutionOutcome {
    pub temporary_store: InnerTemporaryStore,
    pub effects: TransactionEffects,
    /// The events, as they are reported.
    pub events: Vec<u8>,
    pub execution_result: Result<(), ExecutionError>,
}

pub struct EffectsInput {
    pub tx_data: TransactionData,
    pub temporary_store: InnerTemporaryStore,
    pub effects: TransactionEffects,
    pub events: Vec<u8>,
    pub execution_result: Result<(), ExecutionError>,
}

pub struct StorageInput {
    pub tx_data: TransactionData,
    pub temporary_store: InnerTemporaryStore,
    pub effects: TransactionEffects,
    pub events: Vec<u8>,
    pub object_changes: Vec<ObjectChange>,
    pub balance_changes: Vec<BalanceChange>,
    pub execution_result: Result<(), ExecutionError>,
}

pub struct TransactionOutput {
    pub tx_data: TransactionData,
    pub effects: TransactionEffects,
    pub events: Vec<u8>,
    pub object_changes: Vec<ObjectChange>,
    pub balance_changes: Vec<BalanceChange>,
    pub execution_result: Result<(), ExecutionError>,
}

pub struct DryRunOutput {
    pub tx_data: TransactionData,
    pub effects: TransactionEffects,
    pub events: Vec<u8>,
    pub object_changes: Vec<ObjectChange>,
    pub balance_changes: Vec<BalanceChange>,
    pub execution_result: Result<(), ExecutionError>,
}

/// What validation comes to once no refusal is armed: the signatures are
/// checked, then every input object is found and checked, then the gas
/// check is taken into account. The first failure decides.
pub open spec fn validation_verdict(sandbox: SandboxView, input: ValidationInput) -> Result<
    Seq<(InputObjectKind, ObjectView)>,
    SandboxError,
> {
    match sandbox.auth.transaction_verdict(input.verification) {
        Err(e) => Err(e),
        Ok(_) => match checked_objects(
            sandbox.storage,
            sandbox.auth,
            Some(input.signatures@),
            input.tx_data,
        ) {
            Err(e) => Err(e),
            Ok(checked) => match input.gas_check {
                Err(why) => Err(SandboxError::InvalidGas(why)),
                Ok(_) => Ok(checked),
            },
        },
    }
}

/// Whether `result` ends the run with the response to `tx` refused with
/// the one error `error`.
pub open spec fn refuses<T>(result: PipelineResult<T>, tx: TransactionData, error: Seq<char>) -> bool {
    match result {
        PipelineResult::EarlyReturn(response) => response@ == error_response(tx, seq![error]),
        PipelineResult::Continue(_) => false,
    }
}

/// Checks a transaction before it is executed.
pub struct ValidationStage;

impl ValidationStage {
    fn create_error_response(&self, tx_data: &TransactionData, error: String) -> (r:
        TransactionBlockResponse)
        ensures
            r@ == error_response(*tx_data, seq![error@]),
    {
        let mut errors: Vec<String> = Vec::new();
        errors.push(error);
        assert(seq_view(errors@) =~= seq![error@]);
        response_from_errors(tx_data, errors)
    }
}

impl TransactionStage for ValidationStage {
    type Input = ValidationInput;

    type Output = ExecutionInput;

    open spec fn pre(&self, input: Self::Input, sandbox: MoveVMSandbox) -> bool {
        sandbox.wf()
    }

    /// An armed refusal is taken, so that it serves once, and ends the run
    /// with its reason; nothing else of the engine changes. With no refusal
    /// armed the engine stays as it is, and the run ends with the first
    /// failure of validation or goes on with the checked input objects.
    open spec fn post(
        &self,
        input: Self::Input,
        before: MoveVMSandbox,
        after: MoveVMSandbox,
        result: PipelineResult<Self::Output>,
    ) -> bool {
        &&& after.wf()
        &&& match before@.armed {
            Some(reason) => {
                &&& after@ == (SandboxView { armed: None, ..before@ })
                &&& refuses(result, input.tx_data, reason)
            },
            None => {
                &&& after@ == before@
                &&& match validation_verdict(before@, input) {
                    Err(e) => refuses(result, input.tx_data, e.text()),
                    Ok(checked) => match result {
                        PipelineResult::Continue(handed) => handed.tx_data == input.tx_data
                            && handed.checked_objects@ == checked,
                        PipelineResult::EarlyReturn(_) => false,
                    },
                }
            },
        }
    }

    fn execute(&self, input: Self::Input, sandbox: &mut MoveVMSandbox) -> (r: PipelineResult<
        Self::Output,
    >) {
        match sandbox.transaction_control.take() {
            Some(reason) => {
                let response = self.create_error_response(&input.tx_data, reason);
                return PipelineResult::EarlyReturn(response);
            },
            None => {},
        }

        match sandbox.auth_extension.verify_transaction(&input.verification) {
            Err(e) => {
                let response = self.create_error_response(&input.tx_data, e.message());
                return PipelineResult::EarlyReturn(response);
            },
            Ok(_) => {},
        }

        match sandbox.storage.get_checked_objects(
            &input.tx_data,
            Some(input.signatures.as_slice()),
            &sandbox.auth_extension,
        ) {
            Ok(checked) => {
                match &input.gas_check {
                    Err(why) => {
                        let response = self.create_error_response(&input.tx_data, why.clone());
                        PipelineResult::EarlyReturn(response)
                    },
                    Ok(_) => PipelineResult::Continue(
                        ExecutionInput { tx_data: input.tx_data, checked_objects: checked },
                    ),
                }
            },
            Err(e) => {
                let response = self.create_error_response(&input.tx_data, e.message());
                PipelineResult::EarlyReturn(response)
            },
        }
    }
}

/// Takes in what the execution of the transaction handed back. A failure of
/// the execution is carried on, not raised: this stage always goes on.
pub struct ExecutionStage;

impl TransactionStage for ExecutionStage {
    type Input = (ExecutionInput, ExecutionOutcome);

    type Output = EffectsInput;

    open spec fn pre(&self, input: Self::Input, sandbox: MoveVMSandbox) -> bool {
        true
    }

    open spec fn post(
        &self,
        input: Self::Input,
        before: MoveVMSandbox,
        after: MoveVMSandbox,
        result: PipelineResult<Self::Output>,
    ) -> bool {
        &&& after == before
        &&& match result {
            PipelineResult::Continue(handed) => {
                &&& handed.tx_data == input.0.tx_data
                &&& handed.temporary_store == input.1.temporary_store
                &&& handed.effects == input.1.effects
                &&& handed.events == input.1.events
                &&& handed.execution_result == input.1.execution_result
            },
            PipelineResult::EarlyReturn(_) => false,
        }
    }

    fn execute(&self, input: Self::Input, sandbox: &mut MoveVMSandbox) -> (r: PipelineResult<
        Self::Output,
    >) {
        let (validated, outcome) = input;
        PipelineResult::Continue(
            EffectsInput {
                tx_data: validated.tx_data,
                temporary_store: outcome.temporary_store,
                effects: outcome.effects,
                events: outcome.events,
                execution_result: outcome.execution_result,
            },
        )
    }
}

/// Whether the changes are those that the execution comes to on the store.
pub open spec fn changes_derived(
    sandbox: SandboxView,
    input: EffectsInput,
    changed: Seq<ObjectChange>,
    balances: Seq<BalanceChange>,
) -> bool {
    &&& seq_view(changed) == object_changes(
        sandbox.storage,
        input.temporary_store.written(),
        input.effects,
        input.tx_data.sender,
    )
    &&& seq_view(balances) == balance_changes(
        sandbox.storage,
        input.temporary_store.written(),
        input.effects.tombstones@,
    )
}

/// Whether the execution wrote and tombstoned few enough objects for the
/// sums of balances to fit.
pub open spec fn few_enough(store: InnerTemporaryStore, effects: TransactionEffects) -> bool {
    store.written().len() + effects.tombstones@.len() < MAX_BALANCE_TERMS
}

/// Derives the changes to objects and to balances.
pub struct EffectsStage;

impl TransactionStage for EffectsStage {
    type Input = EffectsInput;

    type Output = StorageInput;

    open spec fn pre(&self, input: Self::Input, sandbox: MoveVMSandbox) -> bool {
        sandbox.wf() && few_enough(input.temporary_store, input.effects)
    }

    open spec fn post(
        &self,
        input: Self::Input,
        before: MoveVMSandbox,
        after: MoveVMSandbox,
        result: PipelineResult<Self::Output>,
    ) -> bool {
        &&& after == before
        &&& match result {
            PipelineResult::Continue(handed) => {
                &&& handed.tx_data == input.tx_data
                &&& handed.temporary_store == input.temporary_store
                &&& handed.effects == input.effects
                &&& handed.events == input.events
                &&& handed.execution_result == input.execution_result
                &&& changes_derived(
                    before@,
                    input,
                    handed.object_changes@,
                    handed.balance_changes@,
                )
            },
            PipelineResult::EarlyReturn(_) => false,
        }
    }

    fn execute(&self, input: Self::Input, sandbox: &mut MoveVMSandbox) -> (r: PipelineResult<
        Self::Output,
    >) {
        let object_changes = sandbox.storage.compute_object_changes(
            &input.temporary_store,
            &input.effects,
            input.tx_data.sender(),
        );

        let balance_changes = sandbox.storage.extract_balance_changes(
            &input.effects,
            &input.temporary_store,
        );

        PipelineResult::Continue(
            StorageInput {
                tx_data: input.tx_data,
                temporary_store: input.temporary_store,
                effects: input.effects,
                events: input.events,
                object_changes,
                balance_changes,
                execution_result: input.execution_result,
            },
        )
    }
}

/// Applies the changes to the store and records the transaction in the
/// index. This is the one stage that changes the store.
pub struct StorageStage;

impl TransactionStage for StorageStage {
    type Input = StorageInput;

    type Output = TransactionOutput;

    open spec fn pre(&self, input: Self::Input, sandbox: MoveVMSandbox) -> bool {
        sandbox.wf()
    }

    open spec fn post(
        &self,
        input: Self::Input,
        before: MoveVMSandbox,
        after: MoveVMSandbox,
        result: PipelineResult<Self::Output>,
    ) -> bool {
        &&& after.wf()
        &&& after@ == (SandboxView {
            storage: before@.storage.apply_transaction_effects(
                input.tx_data,
                seq_view(input.object_changes@),
                input.temporary_store,
            ),
            ..before@
        })
        &&& match result {
            PipelineResult::Continue(handed) => {
                &&& handed.tx_data == input.tx_data
                &&& handed.effects == input.effects
                &&& handed.events == input.events
                &&& handed.object_changes == input.object_changes
                &&& handed.balance_changes == input.balance_changes
                &&& handed.execution_result == input.execution_result
            },
            PipelineResult::EarlyReturn(_) => false,
        }
    }

    fn execute(&self, input: Self::Input, sandbox: &mut MoveVMSandbox) -> (r: PipelineResult<
        Self::Output,
    >) {
        sandbox.storage.apply_transaction_effects(
            &input.tx_data,
            input.object_changes.as_slice(),
            &input.temporary_store,
        );

        PipelineResult::Continue(
            TransactionOutput {
                tx_data: input.tx_data,
                effects: input.effects,
                events: input.events,
                object_changes: input.object_changes,
                balance_changes: input.balance_changes,
                execution_result: input.execution_result,
            },
        )
    }
}

/// Derives the changes as the effects stage does, and leaves the store as
/// it is.
pub struct DryRunStage;

impl TransactionStage for DryRunStage {
    type Input = EffectsInput;

    type Output = DryRunOutput;

    open spec fn pre(&self, input: Self::Input, sandbox: MoveVMSandbox) -> bool {
        sandbox.wf() && few_enough(input.temporary_store, input.effects)
    }

    open spec fn post(
        &self,
        input: Self::Input,
        before: MoveVMSandbox,
        after: MoveVMSandbox,
        result: PipelineResult<Self::Output>,
    ) -> bool {
        &&& after == before
        &&& match result {
            PipelineResult::Continue(handed) => {
                &&& handed.tx_data == input.tx_data
                &&& handed.effects == input.effects
                &&& handed.events == input.events
                &&& handed.execution_result == input.execution_result
                &&& changes_derived(
                    before@,
                    input,
                    handed.object_changes@,
                    handed.balance_changes@,
                )
            },
            PipelineResult::EarlyReturn(_) => false,
        }
    }

    fn execute(&self, input: Self::Input, sandbox: &mut MoveVMSandbox) -> (r: PipelineResult<
        Self::Output,
    >) {
        let object_changes = sandbox.storage.compute_object_changes(
            &input.temporary_store,
            &input.effects,
            input.tx_data.sender(),
        );

        let balance_changes = sandbox.storage.extract_balance_changes(
            &input.effects,
            &input.temporary_store,
        );

        PipelineResult::Continue(
            DryRunOutput {
                tx_data: input.tx_data,
                effects: input.effects,
                events: input.events,
                object_changes,
                balance_changes,
                execution_result: input.execution_result,
            },
        )
    }
}

} // verus!

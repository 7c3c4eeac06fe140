//! The pipeline that a transaction goes through: a sequence of stages,
//! each of which hands its output to the next or ends the run with a
//! response.

pub mod stages;

use crate::rpc_types::TransactionBlockResponse;
use crate::sandbox::MoveVMSandbox;
use vstd::prelude::*;

verus! {

/// What a stage comes to: an output for the next stage, or a response that
/// ends the run.
#[derive(Debug)]
pub enum PipelineResult<T, E = TransactionBlockResponse> {
    Continue(T),
    EarlyReturn(E),
}

/// One stage of the pipeline.
pub trait TransactionStage {
    type Input;

    type Output;

    /// What the stage needs of its input and of the engine.
    spec fn pre(&self, input: Self::Input, sandbox: MoveVMSandbox) -> bool;

    /// What the stage does: how the engine after it and its result relate
    /// to its input and to the engine before it.
    spec fn post(
        &self,
        input: Self::Input,
        before: MoveVMSandbox,
        after: MoveVMSandbox,
        result: PipelineResult<Self::Output>,
    ) -> bool;

    fn execute(&self, input: Self::Input, sandbox: &mut MoveVMSandbox) -> (r: PipelineResult<
        Self::Output,
    >)
        requires
            self.pre(input, *old(sandbox)),
        ensures
            self.post(input, *old(sandbox), *final(sandbox), r),
    ;
}

/// A sequence of stages that runs as one stage.
pub struct Pipeline<S: TransactionStage> {
    pub stage: S,
}

impl<S: TransactionStage> Pipeline<S> {
    pub fn new(stage: S) -> (r: Self)
        ensures
            r.stage == stage,
    {
        Self { stage }
    }

    /// The pipeline with one more stage at its end.
    pub fn and_then<NextStage: TransactionStage<Input = S::Output>>(self, next: NextStage) -> (r:
        Pipeline<ChainedStage<S, NextStage>>)
        ensures
            r.stage == (ChainedStage { first: self.stage, second: next }),
    {
        Pipeline::new(ChainedStage { first: self.stage, second: next })
    }
}

/// Two stages in a row: the second takes what the first hands on.
pub struct ChainedStage<S1, S2> {
    pub first: S1,
    pub second: S2,
}

impl<S1: TransactionStage, S2: TransactionStage<Input = S1::Output>> TransactionStage for ChainedStage<
    S1,
    S2,
> {
    type Input = S1::Input;

    type Output = S2::Output;

    /// The first stage can run, and the second can run on whatever the
    /// first hands on.
    open spec fn pre(&self, input: Self::Input, sandbox: MoveVMSandbox) -> bool {
        &&& self.first.pre(input, sandbox)
        &&& forall|handed: S1::Output, between: MoveVMSandbox|
            self.first.post(input, sandbox, between, PipelineResult::Continue(handed))
                ==> self.second.pre(handed, between)
    }

    /// Either the first stage handed on and the second ran on what it
    /// handed, or the first ended the run: then the second did not run, and
    /// the response and the engine are as the first left them.
    open spec fn post(
        &self,
        input: Self::Input,
        before: MoveVMSandbox,
        after: MoveVMSandbox,
        result: PipelineResult<Self::Output>,
    ) -> bool {
        ||| exists|handed: S1::Output, between: MoveVMSandbox|
            self.first.post(input, before, between, PipelineResult::Continue(handed))
                && self.second.post(handed, between, after, result)
        ||| exists|response: TransactionBlockResponse|
            result == PipelineResult::<Self::Output>::EarlyReturn(response) && self.first.post(
                input,
                before,
                after,
                PipelineResult::EarlyReturn(response),
            )
    }

    fn execute(&self, input: Self::Input, sandbox: &mut MoveVMSandbox) -> (r: PipelineResult<
        Self::Output,
    >) {
        match self.first.execute(input, sandbox) {
            PipelineResult::Continue(intermediate) => self.second.execute(intermediate, sandbox),
            PipelineResult::EarlyReturn(response) => PipelineResult::EarlyReturn(response),
        }
    }
}

impl<S: TransactionStage> TransactionStage for Pipeline<S> {
    type Input = S::Input;

    type Output = S::Output;

    open spec fn pre(&self, input: Self::Input, sandbox: MoveVMSandbox) -> bool {
        self.stage.pre(input, sandbox)
    }

    open spec fn post(
        &self,
        input: Self::Input,
        before: MoveVMSandbox,
        after: MoveVMSandbox,
        result: PipelineResult<Self::Output>,
    ) -> bool {
        self.stage.post(input, before, after, result)
    }

    fn execute(&self, input: Self::Input, sandbox: &mut MoveVMSandbox) -> (r: PipelineResult<
        Self::Output,
    >) {
        self.stage.execute(input, sandbox)
    }
}

} // verus!

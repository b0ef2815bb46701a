//! What the engine records of a run: its steps, its state, the actions that it
//! asks for and the occurrences that it is told of.

use vstd::prelude::*;

use crate::evidence::{CancellationReason, FailurePhase, NonExecutionCode, PrimaryIssue};
use crate::failure::StepFailureCause;
use crate::named::NamedValues;

verus! {

/// Identifies an action by the transition that asked for it.
#[derive(Clone, Copy, Debug, PartialEq, Eq, Structural)]
pub struct ActionId {
    pub transition_sequence: u64,
}

/// Counts the recovery rounds of a step.
#[derive(Clone, Copy, Debug, PartialEq, Eq, Structural)]
pub struct RecoveryRoundNumber {
    pub value: u32,
}

/// Counts the executions of a step's target.
#[derive(Clone, Copy, Debug, PartialEq, Eq, Structural)]
pub struct TargetExecutionNumber {
    pub value: u32,
}

/// A request to end a run early.
#[derive(Clone, Copy, Debug, PartialEq, Eq, Structural)]
pub enum CancellationOperation {
    Graceful { id: u64, reason: CancellationReason },
    ForceAbort { id: u64 },
}

/// The part of a run that a cancellation meets.
#[derive(Clone, Copy, Debug, PartialEq, Eq, Structural)]
pub enum RunCancellationPhase {
    Ordinary,
    Finalization,
}

/// The part of a run that a published force abort met.
#[derive(Clone, Copy, Debug, PartialEq, Eq, Structural)]
pub enum ForceAbortPhaseV1 {
    Ordinary,
    Finalization,
}

/// What a recovery handler decided, by its content.
#[derive(Clone, Debug, PartialEq, Eq)]
pub struct RecoveryDecision {
    pub content: Vec<u8>,
}

/// The state of a step whose outputs have values of the type `O`.
#[derive(Clone, Debug, PartialEq, Eq)]
pub enum StepState<O> {
    Pending,
    Starting,
    Running,
    Capturing,
    Recovering,
    Succeeded { outputs: NamedValues<O> },
    Failed { phase: FailurePhase, cause: StepFailureCause },
    Blocked { dependency: String },
    NotRun { reason: NonExecutionCode },
    Cancelling { reason: CancellationReason },
    Cancelled { reason: CancellationReason },
}

/// The state of a step, without what it holds.
#[derive(Clone, Copy, Debug, PartialEq, Eq, Structural)]
pub enum StepStateKind {
    Pending,
    Starting,
    Running,
    Capturing,
    Recovering,
    Succeeded,
    Failed,
    Blocked,
    NotRun,
    Cancelling,
    Cancelled,
}

/// The state of a run.
#[derive(Clone, Debug, PartialEq, Eq)]
pub enum WorkflowState {
    Executing,
    Finalizing,
    Succeeded,
    Failed { primary_failure: PrimaryIssue, later_cancellation: Option<CancellationReason> },
    Cancelled { reason: CancellationReason },
}

impl WorkflowState {
    /// Whether the run has ended.
    pub open spec fn terminal(&self) -> bool {
        self is Succeeded || self is Failed || self is Cancelled
    }

    /// Whether the run has ended.
    pub fn is_terminal(&self) -> (terminal: bool)
        ensures
            terminal == self.terminal(),
    {
        match self {
            WorkflowState::Succeeded => true,
            WorkflowState::Failed { .. } => true,
            WorkflowState::Cancelled { .. } => true,
            WorkflowState::Executing => false,
            WorkflowState::Finalizing => false,
        }
    }
}

/// The state of a run, without what it holds.
#[derive(Clone, Copy, Debug, PartialEq, Eq, Structural)]
pub enum WorkflowStateKind {
    Executing,
    Finalizing,
    Succeeded,
    Failed,
    Cancelled,
}

/// Something that changed in a run.
#[derive(Debug, PartialEq, Eq)]
pub enum TransitionEvent {
    Step { step: String, to: StepStateKind },
    Workflow { to: WorkflowStateKind },
    CancellationAccepted { reason: CancellationReason },
    FinalizationCancellationAccepted { reason: CancellationReason },
}

/// What a run has come to.
#[derive(Clone, Debug, PartialEq, Eq)]
pub struct RunState<O> {
    pub workflow: WorkflowState,
    pub steps: NamedValues<StepState<O>>,
    pub exports: Option<NamedValues<O>>,
}

/// Something that a run asks to be done.
#[derive(Debug, PartialEq, Eq)]
pub enum Action {
    StartStep { step: String, execution_number: TargetExecutionNumber },
    StartRecoveryHandler { step: String, round: RecoveryRoundNumber },
    CaptureOutputs { step: String },
    CancelStep { step: String },
    ForceAbortStep { step: String },
    FinishRun,
}

/// An action with its identifier.
#[derive(Debug, PartialEq, Eq)]
pub struct RequestedAction {
    pub id: ActionId,
    pub action: Action,
}

} // verus!

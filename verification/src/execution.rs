//! What observers are told of a run, and what it hands back when it has ended.

use vstd::prelude::*;

use crate::coordinator::CoordinationError;
use crate::evidence::{CancellationReason, FailurePhase, NonExecutionCode, PrimaryIssue};
use crate::failure::StepFailureCause;
use crate::named::{ascending, entry_names, NamedValues};
use crate::runtime::{RunState, StepState, StepStateKind, TransitionEvent, WorkflowState};
use crate::text::texts;

verus! {

/// What a step's transition means to an observer. Of outputs their names are told.
#[derive(Debug, PartialEq, Eq)]
pub enum ObservedStepTransition<'a> {
    OutputsCommitted { outputs: Vec<String> },
    Failed { phase: FailurePhase, cause: &'a StepFailureCause },
    Blocked { dependency: &'a String },
    NotRun { reason: NonExecutionCode },
    Cancelling { reason: CancellationReason },
    Cancelled { reason: CancellationReason },
}

/// What a step's transition means, outputs by the texts of their names.
pub enum TransitionModel {
    OutputsCommitted(Seq<Seq<char>>),
    Failed(FailurePhase, StepFailureCause),
    Blocked(Seq<char>),
    NotRun(NonExecutionCode),
    Cancelling(CancellationReason),
    Cancelled(CancellationReason),
}

impl<'a> View for ObservedStepTransition<'a> {
    type V = TransitionModel;

    open spec fn view(&self) -> TransitionModel {
        match self {
            ObservedStepTransition::OutputsCommitted { outputs } => {
                TransitionModel::OutputsCommitted(texts(outputs@))
            },
            ObservedStepTransition::Failed { phase, cause } => {
                TransitionModel::Failed(*phase, **cause)
            },
            ObservedStepTransition::Blocked { dependency } => {
                TransitionModel::Blocked(dependency@)
            },
            ObservedStepTransition::NotRun { reason } => TransitionModel::NotRun(*reason),
            ObservedStepTransition::Cancelling { reason } => TransitionModel::Cancelling(*reason),
            ObservedStepTransition::Cancelled { reason } => TransitionModel::Cancelled(*reason),
        }
    }
}

/// What reaching the state `to` means, if the step is in that state.
pub open spec fn observed_state<O>(to: StepStateKind, state: StepState<O>) -> Option<
    TransitionModel,
> {
    match (to, state) {
        (StepStateKind::Succeeded, StepState::Succeeded { outputs }) => Some(
            TransitionModel::OutputsCommitted(entry_names(outputs.listed())),
        ),
        (StepStateKind::Failed, StepState::Failed { phase, cause }) => Some(
            TransitionModel::Failed(phase, cause),
        ),
        (StepStateKind::Blocked, StepState::Blocked { dependency }) => Some(
            TransitionModel::Blocked(dependency@),
        ),
        (StepStateKind::NotRun, StepState::NotRun { reason }) => Some(
            TransitionModel::NotRun(reason),
        ),
        (StepStateKind::Cancelling, StepState::Cancelling { reason }) => Some(
            TransitionModel::Cancelling(reason),
        ),
        (StepStateKind::Cancelled, StepState::Cancelled { reason }) => Some(
            TransitionModel::Cancelled(reason),
        ),
        _ => None,
    }
}

/// What an event means of the step that it names, in the state that it led to.
pub open spec fn observed_event<O>(
    event: TransitionEvent,
    steps: Map<Seq<char>, StepState<O>>,
) -> Option<TransitionModel> {
    match event {
        TransitionEvent::Step { step, to } => if steps.dom().contains(step@) {
            observed_state(to, steps[step@])
        } else {
            None
        },
        _ => None,
    }
}

/// What an event means of the step that it names, in the state that it led to. The
/// outputs of a succeeded step are told by their names, each once and in ascending
/// order.
pub fn observed_step_transition<'a, O>(
    event: &TransitionEvent,
    state: &'a RunState<O>,
) -> (observed: Option<ObservedStepTransition<'a>>)
    ensures
        match observed {
            Some(observed) => observed_event(*event, state.steps.contents()) == Some(observed@),
            None => observed_event(*event, state.steps.contents()) is None,
        },
        observed matches Some(ObservedStepTransition::OutputsCommitted { outputs }) ==> ascending(
            texts(outputs@),
        ),
{
    let (step, to) = match event {
        TransitionEvent::Step { step, to } => (step, *to),
        _ => {
            return None;
        },
    };
    let reached: &StepState<O> = match state.steps.get(step.as_str()) {
        Some(reached) => reached,
        None => {
            return None;
        },
    };
    match (to, reached) {
        (StepStateKind::Succeeded, StepState::Succeeded { outputs }) => Some(
            ObservedStepTransition::OutputsCommitted { outputs: outputs.names() },
        ),
        (StepStateKind::Failed, StepState::Failed { phase, cause }) => Some(
            ObservedStepTransition::Failed { phase: *phase, cause },
        ),
        (StepStateKind::Blocked, StepState::Blocked { dependency }) => Some(
            ObservedStepTransition::Blocked { dependency },
        ),
        (StepStateKind::NotRun, StepState::NotRun { reason }) => Some(
            ObservedStepTransition::NotRun { reason: *reason },
        ),
        (StepStateKind::Cancelling, StepState::Cancelling { reason }) => Some(
            ObservedStepTransition::Cancelling { reason: *reason },
        ),
        (StepStateKind::Cancelled, StepState::Cancelled { reason }) => Some(
            ObservedStepTransition::Cancelled { reason: *reason },
        ),
        _ => None,
    }
}

/// How a run ended.
#[derive(Debug, PartialEq, Eq)]
pub enum RunOutcome {
    Succeeded,
    Failed { primary_failure: PrimaryIssue, later_cancellation: Option<CancellationReason> },
    Cancelled { reason: CancellationReason },
}

/// What a run hands back, with where its workflow came from and the digest of what
/// that workflow holds.
#[derive(Debug, PartialEq, Eq)]
pub struct WorkflowExecutionResult<O, P, D> {
    pub outcome: RunOutcome,
    pub steps: NamedValues<StepState<O>>,
    pub exports: NamedValues<O>,
    pub provenance: P,
    pub content_digest: D,
}

/// How a run in that state ended, if it did.
pub open spec fn outcome_of(state: WorkflowState) -> Option<RunOutcome> {
    match state {
        WorkflowState::Succeeded => Some(RunOutcome::Succeeded),
        WorkflowState::Failed { primary_failure, later_cancellation } => Some(
            RunOutcome::Failed { primary_failure, later_cancellation },
        ),
        WorkflowState::Cancelled { reason } => Some(RunOutcome::Cancelled { reason }),
        _ => None,
    }
}

/// Hands back what a run has come to, once it has ended with its exports known.
pub fn execution_result<O, P, D>(state: RunState<O>, provenance: P, content_digest: D) -> (outcome:
    Result<WorkflowExecutionResult<O, P, D>, CoordinationError>)
    ensures
        match outcome {
            Ok(result) => outcome_of(state.workflow) == Some(result.outcome) && result.steps
                == state.steps && state.exports == Some(result.exports) && result.provenance
                == provenance && result.content_digest == content_digest,
            Err(error) => (outcome_of(state.workflow) is None || state.exports is None) && error
                == CoordinationError::ReducerStateUnavailable,
        },
{
    let outcome: RunOutcome = match state.workflow {
        WorkflowState::Succeeded => RunOutcome::Succeeded,
        WorkflowState::Failed { primary_failure, later_cancellation } => RunOutcome::Failed {
            primary_failure,
            later_cancellation,
        },
        WorkflowState::Cancelled { reason } => RunOutcome::Cancelled { reason },
        WorkflowState::Executing => {
            return Err(CoordinationError::ReducerStateUnavailable);
        },
        WorkflowState::Finalizing => {
            return Err(CoordinationError::ReducerStateUnavailable);
        },
    };
    match state.exports {
        Some(exports) => Ok(
            WorkflowExecutionResult {
                outcome,
                steps: state.steps,
                exports,
                provenance,
                content_digest,
            },
        ),
        None => Err(CoordinationError::ReducerStateUnavailable),
    }
}

/// The outcome of an ended run is of the same kind as its last state and holds the same:
/// for a failure the issue and the later cancellation, for a cancellation its reason. So
/// runs that ended differently have different outcomes.
pub proof fn law_outcomes_are_the_last_states(state: WorkflowState, other: WorkflowState)
    ensures
        outcome_of(state) == Some(RunOutcome::Succeeded) <==> state is Succeeded,
        outcome_of(state) matches Some(RunOutcome::Failed { primary_failure, later_cancellation })
            ==> state == (WorkflowState::Failed { primary_failure, later_cancellation }),
        state is Failed ==> (outcome_of(state) matches Some(outcome) && outcome is Failed),
        outcome_of(state) matches Some(RunOutcome::Cancelled { reason }) ==> state == (
        WorkflowState::Cancelled { reason }),
        state is Cancelled ==> (outcome_of(state) matches Some(outcome) && outcome is Cancelled),
        outcome_of(state) is Some && outcome_of(state) == outcome_of(other) ==> state == other,
{
}

/// Handing a run back succeeds exactly if the run has ended with its exports known, and
/// hands back just what the run has come to, with the provenance and the digest given.
pub proof fn law_results_are_handed_back_whole<O, P, D>(
    state: RunState<O>,
    provenance: P,
    content_digest: D,
    outcome: Result<WorkflowExecutionResult<O, P, D>, CoordinationError>,
)
    requires
        call_ensures(execution_result::<O, P, D>, (state, provenance, content_digest), outcome),
    ensures
        outcome is Ok <==> state.exports is Some && !(state.workflow is Executing)
            && !(state.workflow is Finalizing),
        outcome matches Err(error) ==> error == CoordinationError::ReducerStateUnavailable,
        outcome matches Ok(result) ==> {
            &&& result.outcome is Succeeded <==> state.workflow is Succeeded
            &&& result.outcome matches RunOutcome::Failed { primary_failure, later_cancellation }
                ==> state.workflow == (WorkflowState::Failed {
                primary_failure,
                later_cancellation,
            })
            &&& result.outcome matches RunOutcome::Cancelled { reason } ==> state.workflow
                == (WorkflowState::Cancelled { reason })
            &&& result.steps == state.steps
            &&& Some(result.exports) == state.exports
            &&& result.provenance == provenance
            &&& result.content_digest == content_digest
        },
{
}

/// Something is told of a step exactly where an event names it, tells that it reached a
/// state that is worth telling, and the step is in that state. What is told is that state:
/// the names of the outputs, the failure, the dependency or the reason.
pub proof fn law_told_transitions_are_the_states_reached<O>(
    to: StepStateKind,
    state: StepState<O>,
)
    ensures
        match observed_state(to, state) {
            Some(TransitionModel::OutputsCommitted(names)) => to == StepStateKind::Succeeded
                && (state matches StepState::Succeeded { outputs } && names.len()
                == outputs.listed().len() && forall|i: int|
                0 <= i < names.len() ==> #[trigger] names[i] == outputs.listed()[i].0@),
            Some(TransitionModel::Failed(phase, cause)) => to == StepStateKind::Failed && state == (
            StepState::<O>::Failed { phase, cause }),
            Some(TransitionModel::Blocked(dependency)) => to == StepStateKind::Blocked
                && (state matches StepState::Blocked { dependency: name } && name@ == dependency),
            Some(TransitionModel::NotRun(reason)) => to == StepStateKind::NotRun && state == (
            StepState::<O>::NotRun { reason }),
            Some(TransitionModel::Cancelling(reason)) => to == StepStateKind::Cancelling && state
                == (StepState::<O>::Cancelling { reason }),
            Some(TransitionModel::Cancelled(reason)) => to == StepStateKind::Cancelled && state == (
            StepState::<O>::Cancelled { reason }),
            None => !(to == StepStateKind::Succeeded && state is Succeeded) && !(to
                == StepStateKind::Failed && state is Failed) && !(to == StepStateKind::Blocked
                && state is Blocked) && !(to == StepStateKind::NotRun && state is NotRun) && !(to
                == StepStateKind::Cancelling && state is Cancelling) && !(to
                == StepStateKind::Cancelled && state is Cancelled),
        },
{
}

/// Only events that name a step of the run tell something of a step, and they tell it of
/// the step that they name.
pub proof fn law_told_transitions_are_of_the_named_step<O>(
    event: TransitionEvent,
    steps: Map<Seq<char>, StepState<O>>,
)
    ensures
        observed_event(event, steps) matches Some(told) ==> (event matches TransitionEvent::Step {
            step,
            to,
        } && steps.dom().contains(step@) && observed_state(to, steps[step@]) == Some(told)),
        event matches TransitionEvent::Step { step, to } ==> (steps.dom().contains(step@)
            && observed_state(to, steps[step@]) is Some ==> observed_event(event, steps) is Some),
{
}

/// What an observer is given is told by what it holds.
pub proof fn law_told_transitions_are_modelled_faithfully(told: ObservedStepTransition<'_>)
    ensures
        match told {
            ObservedStepTransition::OutputsCommitted { outputs } => told@
                matches TransitionModel::OutputsCommitted(names) && names.len() == outputs@.len()
                && forall|i: int| 0 <= i < names.len() ==> #[trigger] names[i] == outputs@[i]@,
            ObservedStepTransition::Failed { phase, cause } => told@ == TransitionModel::Failed(
                phase,
                *cause,
            ),
            ObservedStepTransition::Blocked { dependency } => told@ == TransitionModel::Blocked(
                dependency@,
            ),
            ObservedStepTransition::NotRun { reason } => told@ == TransitionModel::NotRun(reason),
            ObservedStepTransition::Cancelling { reason } => told@ == TransitionModel::Cancelling(
                reason,
            ),
            ObservedStepTransition::Cancelled { reason } => told@ == TransitionModel::Cancelled(
                reason,
            ),
        },
{
}

/// A run has an outcome exactly when it has ended.
pub proof fn law_ended_runs_have_an_outcome(state: WorkflowState)
    ensures
        outcome_of(state) is Some <==> state.terminal(),
{
}

} // verus!

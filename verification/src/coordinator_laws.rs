//! What coordinating a run does, event by event, and what it records and hands on.

use vstd::prelude::*;

use crate::coordinator::{
    cancellation_form, cancellation_occurrence, commit_effects, commit_plan, committed_model,
    coordination_result, expected, following, initial_form, initial_request, occurrence_model,
    output_contents, ActionModel, CancellationRequest, CommitEffect, CommittedActionKind,
    CoordinationDiagnostic, CoordinationError, CoordinationResult, CoordinatorAction,
    CoordinatorEvent, CoordinatorModel, CoordinatorPhase, Delivery, DriverOccurrence,
    DriverOccurrenceKind, InitialCancellation, Occurrence, OccurrenceModel, OccurrenceOrdinal,
    RecordedOccurrence, Reduction,
};
use crate::runtime::{
    Action, CancellationOperation, RequestedAction, TransitionEvent, WorkflowState,
    WorkflowStateKind,
};

verus! {

/// An action is modelled as just what it is.
pub proof fn law_actions_are_modelled_faithfully(action: CoordinatorAction)
    ensures
        match action.model() {
            ActionModel::Initialize(cancellation, place) => action
                matches CoordinatorAction::Initialize { cancellation: given, ordinal } && given
                == cancellation && ordinal.position() == place,
            ActionModel::Wait => action is Wait,
            ActionModel::ReduceCancellation(operation, retained, place) => action
                matches CoordinatorAction::ReduceCancellation {
                operation: taken,
                retain_delivery,
                ordinal,
            } && taken == operation && retain_delivery == retained && ordinal.position() == place,
            ActionModel::Resolve(claimed) => action matches CoordinatorAction::Resolve {
                claimed: given,
            } && given == claimed,
            ActionModel::ReleaseStepResources(bytes) => action
                matches CoordinatorAction::ReleaseStepResources { provisional }
                && provisional@ == bytes,
            ActionModel::ReduceOccurrence(replay, place) => action
                matches CoordinatorAction::ReduceOccurrence { exact_replay, ordinal }
                && exact_replay == replay && ordinal.position() == place,
            ActionModel::Finish(place) => action matches CoordinatorAction::Finish { ordinal }
                && ordinal.position() == place,
            ActionModel::Fail(error) => action matches CoordinatorAction::Fail { error: given }
                && given == error,
        },
{
}

/// A run begins once; while it waits it hears of cancellations and occurrences; what was
/// handed over is settled, or given up if it was only claimed; what was taken is
/// committed. Nothing comes after the end.
pub proof fn law_events_come_in_their_phase(phase: CoordinatorPhase, event: CoordinatorEvent)
    ensures
        phase == CoordinatorPhase::Created ==> (expected(phase, event) <==> event is Started),
        phase == CoordinatorPhase::Waiting ==> (expected(phase, event) <==> event
            is CancellationClosed || event is CancellationPolled || event is OccurrencesClosed
            || event is Delivered),
        phase matches CoordinatorPhase::Resolving { ordinal_assigned } ==> (expected(phase, event)
            <==> event is Resolved || (event is Discarded && !ordinal_assigned)),
        phase == CoordinatorPhase::Committing ==> (expected(phase, event) <==> event is Committed),
        phase == CoordinatorPhase::Ended ==> !expected(phase, event),
{
}

/// A run that begins is set up at the first place and committed. Only a graceful
/// cancellation that was requested before is part of it, with its identifier and reason.
pub proof fn law_runs_begin_at_the_first_place(
    model: CoordinatorModel,
    operation: Option<CancellationOperation>,
)
    requires
        model.phase == CoordinatorPhase::Created,
        model.ordinal < u64::MAX,
    ensures
        ({
            let (next, action) = following(model, CoordinatorEvent::Started { operation });
            &&& next.phase == CoordinatorPhase::Committing
            &&& next.ordinal == model.ordinal + 1
            &&& next.observed == model.observed
            &&& next.capacity == model.capacity
            &&& action matches ActionModel::Initialize(initial, place) && place == model.ordinal
                + 1 && (initial matches Some(initial) ==> operation == Some(
                CancellationOperation::Graceful { id: initial.operation, reason: initial.reason },
            )) && (initial is None ==> !(operation matches Some(operation) && operation
                is Graceful))
        }),
{
}

/// A run starts cancelled exactly if a graceful cancellation was requested before, and for
/// the reason that it gives.
pub proof fn law_initial_cancellations_are_the_graceful_ones(
    operation: Option<CancellationOperation>,
)
    ensures
        initial_form(operation) is Some <==> (operation matches Some(operation) && operation
            is Graceful),
        initial_form(operation) matches Some(InitialCancellation { operation: id, reason })
            ==> operation == Some(CancellationOperation::Graceful { id, reason }),
{
}

/// No cancellation is lost: while a run waits, each one that it hears of, alone or beside
/// an occurrence that was handed over, is itself taken at the next place and committed. An
/// occurrence that was handed over is kept, and nothing that is remembered changes.
pub proof fn law_no_cancellation_is_lost(
    model: CoordinatorModel,
    event: CoordinatorEvent,
    operation: CancellationOperation,
)
    requires
        model.phase == CoordinatorPhase::Waiting,
        model.ordinal < u64::MAX,
        event == (CoordinatorEvent::CancellationPolled { operation: Some(operation) }) || (
        event matches CoordinatorEvent::Delivered { pending, .. } && pending == Some(operation)),
    ensures
        ({
            let (next, action) = following(model, event);
            &&& action matches ActionModel::ReduceCancellation(taken, retained, place) && taken
                == operation && (retained <==> event is Delivered) && place == model.ordinal + 1
            &&& next.phase == CoordinatorPhase::Committing
            &&& next.ordinal == model.ordinal + 1
            &&& next.observed == model.observed
            &&& next.capacity == model.capacity
        }),
{
}

/// Hearing of no cancellation changes nothing, and neither does a claim that nobody waits
/// for any more.
pub proof fn law_nothing_new_changes_nothing(model: CoordinatorModel)
    requires
        model.phase == CoordinatorPhase::Waiting,
    ensures
        following(model, CoordinatorEvent::CancellationPolled { operation: None }) == (
            model,
            ActionModel::Wait,
        ),
        following(
            model,
            CoordinatorEvent::Delivered {
                pending: None,
                delivery: Delivery::Claimed { observed: false },
            },
        ) == (model, ActionModel::Wait),
{
}

/// An occurrence gets the place behind the last one, however it was handed over: at once
/// where it can be taken at once, and only when it is settled where it was claimed. What
/// is settled is taken up under the place that it got.
pub proof fn law_occurrences_get_the_next_place(
    model: CoordinatorModel,
    delivery: Delivery,
    occurrence: RecordedOccurrence,
)
    requires
        model.phase == CoordinatorPhase::Waiting,
        model.ordinal < u64::MAX,
        delivery != (Delivery::Claimed { observed: false }),
    ensures
        ({
            let delivered = following(
                model,
                CoordinatorEvent::Delivered { pending: None, delivery },
            );
            let (next, action) = following(delivered.0, CoordinatorEvent::Resolved { occurrence });
            &&& delivered.1 == ActionModel::Resolve(delivery is Claimed)
            &&& delivered.0.phase == (CoordinatorPhase::Resolving {
                ordinal_assigned: !(delivery is Claimed),
            })
            &&& delivered.0.ordinal == (if delivery is Claimed {
                model.ordinal
            } else {
                model.ordinal + 1
            })
            &&& delivered.0.observed == model.observed
            &&& delivered.0.capacity == model.capacity
            &&& action matches ActionModel::ReduceOccurrence(_, place) ==> place == model.ordinal
                + 1 && next.ordinal == place && next.phase == CoordinatorPhase::Committing
            &&& !(action is ReduceOccurrence) ==> action is Fail && next.phase
                == CoordinatorPhase::Ended
        }),
{
}

proof fn lemma_unknown(observed: Seq<OccurrenceModel>, occurrence: OccurrenceModel)
    requires
        forall|i: int|
            0 <= i < observed.len() ==> (#[trigger] observed[i]).identity != occurrence.identity,
    ensures
        crate::coordinator::remembered(observed, occurrence.identity) is None,
    decreases observed.len(),
{
    if observed.len() > 0 {
        let earlier = observed.drop_last();
        assert forall|i: int| 0 <= i < earlier.len() implies (#[trigger] earlier[i]).identity
            != occurrence.identity by {
            assert(earlier[i] == observed[i]);
        }
        assert(observed.last() == observed[observed.len() - 1]);
        lemma_unknown(earlier, occurrence);
    }
}

/// A new occurrence is applied, not taken for a replay, and remembered behind the others,
/// as long as there is room; without room the run ends for want of it.
pub proof fn law_new_occurrences_are_applied(
    model: CoordinatorModel,
    assigned: bool,
    occurrence: RecordedOccurrence,
)
    requires
        model.phase == (CoordinatorPhase::Resolving { ordinal_assigned: assigned }),
        model.ordinal < u64::MAX,
        forall|i: int|
            0 <= i < model.observed.len() ==> (#[trigger] model.observed[i]).identity
                != occurrence.identified(),
    ensures
        ({
            let (next, action) = following(model, CoordinatorEvent::Resolved { occurrence });
            if model.observed.len() < model.capacity {
                &&& action matches ActionModel::ReduceOccurrence(replay, place) && !replay && place
                    == (if assigned {
                    model.ordinal
                } else {
                    model.ordinal + 1
                })
                &&& next.phase == CoordinatorPhase::Committing
                &&& next.observed == model.observed.push(occurrence_model(occurrence))
            } else {
                &&& action == ActionModel::Fail(
                    CoordinationError::OccurrenceIdentityCapacityExceeded,
                )
                &&& next.phase == CoordinatorPhase::Ended
            }
        }),
{
    lemma_unknown(model.observed, occurrence_model(occurrence));
}

/// A commit that failed ends the run, and so does one that reached the run's limit; one
/// that ended the run has its result handed back under the last place; after any other the
/// run waits. No commit changes what is remembered or takes a place.
pub proof fn law_commits_decide_how_a_run_goes_on(
    model: CoordinatorModel,
    succeeded: bool,
    terminal: bool,
    capacity_exceeded: bool,
)
    requires
        model.phase == CoordinatorPhase::Committing,
    ensures
        ({
            let (next, action) = following(
                model,
                CoordinatorEvent::Committed { succeeded, terminal, capacity_exceeded },
            );
            &&& action == ActionModel::Fail(CoordinationError::CommitFailed) <==> !succeeded
            &&& action == ActionModel::Fail(CoordinationError::TransitionCapacityExceeded)
                <==> succeeded && capacity_exceeded
            &&& action == ActionModel::Finish(model.ordinal) <==> succeeded && !capacity_exceeded
                && terminal
            &&& action == ActionModel::Wait <==> succeeded && !capacity_exceeded && !terminal
            &&& next.phase == (if succeeded && !capacity_exceeded && !terminal {
                CoordinatorPhase::Waiting
            } else {
                CoordinatorPhase::Ended
            })
            &&& next.ordinal == model.ordinal && next.observed == model.observed && next.capacity
                == model.capacity
        }),
{
}

/// A run whose cancellations or occurrences can come no more gives up for that.
pub proof fn law_closed_channels_end_the_run(model: CoordinatorModel, event: CoordinatorEvent)
    requires
        model.phase == CoordinatorPhase::Waiting,
        event is CancellationClosed || event is OccurrencesClosed,
    ensures
        following(model, event).1 == ActionModel::Fail(CoordinationError::OccurrenceChannelClosed),
        following(model, event).0.phase == CoordinatorPhase::Ended,
{
}

/// Where there is no further place, nothing that needs one is taken, and the run gives up
/// for that.
pub proof fn law_exhausted_places_end_the_run(model: CoordinatorModel, event: CoordinatorEvent)
    requires
        model.ordinal == u64::MAX,
        event is Started && model.phase == CoordinatorPhase::Created || model.phase
            == CoordinatorPhase::Waiting && (event matches CoordinatorEvent::CancellationPolled {
            operation,
        } && operation is Some || (event matches CoordinatorEvent::Delivered { pending, delivery }
            && (pending is Some || !(delivery is Claimed)))),
    ensures
        following(model, event).1 == ActionModel::Fail(
            CoordinationError::OccurrenceOrdinalExhausted,
        ),
        following(model, event).0.phase == CoordinatorPhase::Ended,
{
}

/// A claim that was given up takes no place and is not remembered; only a completed
/// execution has something to release, and only where it has to be.
pub proof fn law_given_up_claims_leave_no_trace(
    model: CoordinatorModel,
    occurrence: RecordedOccurrence,
    requires_release: bool,
)
    requires
        model.phase == (CoordinatorPhase::Resolving { ordinal_assigned: false }),
    ensures
        ({
            let (next, action) = following(
                model,
                CoordinatorEvent::Discarded { occurrence, requires_release },
            );
            &&& next == (CoordinatorModel { phase: CoordinatorPhase::Waiting, ..model })
            &&& action is ReleaseStepResources <==> requires_release && occurrence
                is StepExecutionCompleted
            &&& action is ReleaseStepResources || action is Wait
            &&& action matches ActionModel::ReleaseStepResources(bytes) ==> bytes
                == occurrence->StepExecutionCompleted_provisional@
        }),
{
}

/// An occurrence is told apart by the action that it answers, by its kind, and by its
/// recovery round where it has one.
pub proof fn law_identities_tell_action_kind_and_round<P, C, O>(
    left: DriverOccurrence<P, C, O>,
    right: DriverOccurrence<P, C, O>,
)
    ensures
        left.identified() == right.identified() <==> (match (left, right) {
            (
                DriverOccurrence::StepStarted { action, .. },
                DriverOccurrence::StepStarted { action: other, .. },
            ) => action == other,
            (
                DriverOccurrence::StepStartFailed { action, .. },
                DriverOccurrence::StepStartFailed { action: other, .. },
            ) => action == other,
            (
                DriverOccurrence::StepExecutionCompleted { action, .. },
                DriverOccurrence::StepExecutionCompleted { action: other, .. },
            ) => action == other,
            (
                DriverOccurrence::StepExecutionFailed { action, .. },
                DriverOccurrence::StepExecutionFailed { action: other, .. },
            ) => action == other,
            (
                DriverOccurrence::OutputsCaptured { action, .. },
                DriverOccurrence::OutputsCaptured { action: other, .. },
            ) => action == other,
            (
                DriverOccurrence::OutputCaptureFailed { action, .. },
                DriverOccurrence::OutputCaptureFailed { action: other, .. },
            ) => action == other,
            (
                DriverOccurrence::RecoveryHandlerStarted { action, round, .. },
                DriverOccurrence::RecoveryHandlerStarted { action: other, round: again, .. },
            ) => action == other && round == again,
            (
                DriverOccurrence::RecoveryHandlerStartFailed { action, round, .. },
                DriverOccurrence::RecoveryHandlerStartFailed { action: other, round: again, .. },
            ) => action == other && round == again,
            (
                DriverOccurrence::RecoveryHandlerCompleted { action, round, .. },
                DriverOccurrence::RecoveryHandlerCompleted { action: other, round: again, .. },
            ) => action == other && round == again,
            (
                DriverOccurrence::RecoveryHandlerExecutionFailed { action, round, .. },
                DriverOccurrence::RecoveryHandlerExecutionFailed {
                    action: other,
                    round: again,
                    ..
                },
            ) => action == other && round == again,
            (
                DriverOccurrence::StepQuiesced { action, .. },
                DriverOccurrence::StepQuiesced { action: other, .. },
            ) => action == other,
            _ => false,
        }),
{
}

/// The kind in an occurrence's identity is the kind of thing that happened.
pub proof fn law_identities_name_the_kind<P, C, O>(occurrence: DriverOccurrence<P, C, O>)
    ensures
        match occurrence.identified().kind {
            DriverOccurrenceKind::StepStarted => occurrence is StepStarted,
            DriverOccurrenceKind::StepStartFailed => occurrence is StepStartFailed,
            DriverOccurrenceKind::StepExecutionCompleted => occurrence is StepExecutionCompleted,
            DriverOccurrenceKind::StepExecutionFailed => occurrence is StepExecutionFailed,
            DriverOccurrenceKind::OutputsCaptured => occurrence is OutputsCaptured,
            DriverOccurrenceKind::OutputCaptureFailed => occurrence is OutputCaptureFailed,
            DriverOccurrenceKind::RecoveryHandlerStarted => occurrence is RecoveryHandlerStarted,
            DriverOccurrenceKind::RecoveryHandlerStartFailed => occurrence
                is RecoveryHandlerStartFailed,
            DriverOccurrenceKind::RecoveryHandlerCompleted => occurrence
                is RecoveryHandlerCompleted,
            DriverOccurrenceKind::RecoveryHandlerExecutionFailed => occurrence
                is RecoveryHandlerExecutionFailed,
            DriverOccurrenceKind::StepQuiesced => occurrence is StepQuiesced,
        },
        occurrence.identified().round is Some <==> occurrence is RecoveryHandlerStarted
            || occurrence is RecoveryHandlerStartFailed || occurrence is RecoveryHandlerCompleted
            || occurrence is RecoveryHandlerExecutionFailed,
{
}

/// A run's state is told of an occurrence under its own kind, with all that it holds.
pub proof fn law_runtime_form_keeps_kind_and_content<P, C, O>(occurrence: DriverOccurrence<P, C, O>)
    ensures
        match occurrence.runtime_form() {
            Occurrence::StepStarted { step, action } => occurrence
                == (DriverOccurrence::<P, C, O>::StepStarted { step, action }),
            Occurrence::StepStartFailed { step, action, cause } => occurrence
                == (DriverOccurrence::<P, C, O>::StepStartFailed { step, action, cause }),
            Occurrence::StepExecutionCompleted { step, action, provisional } => occurrence
                == (DriverOccurrence::<P, C, O>::StepExecutionCompleted {
                step,
                action,
                provisional,
            }),
            Occurrence::StepExecutionFailed { step, action, cause } => occurrence
                == (DriverOccurrence::<P, C, O>::StepExecutionFailed { step, action, cause }),
            Occurrence::OutputsCaptured { step, action, outputs } => occurrence
                == (DriverOccurrence::<P, C, O>::OutputsCaptured { step, action, outputs }),
            Occurrence::OutputCaptureFailed { step, action, cause } => occurrence
                == (DriverOccurrence::<P, C, O>::OutputCaptureFailed { step, action, cause }),
            Occurrence::RecoveryHandlerStarted { step, round, action } => occurrence
                == (DriverOccurrence::<P, C, O>::RecoveryHandlerStarted { step, round, action }),
            Occurrence::RecoveryHandlerStartFailed { step, round, action, cause } => occurrence
                == (DriverOccurrence::<P, C, O>::RecoveryHandlerStartFailed {
                step,
                round,
                action,
                cause,
            }),
            Occurrence::RecoveryHandlerCompleted { step, round, action, decision } => occurrence
                == (DriverOccurrence::<P, C, O>::RecoveryHandlerCompleted {
                step,
                round,
                action,
                decision,
            }),
            Occurrence::RecoveryHandlerExecutionFailed { step, round, action, cause } => occurrence
                == (DriverOccurrence::<P, C, O>::RecoveryHandlerExecutionFailed {
                step,
                round,
                action,
                cause,
            }),
            Occurrence::StepQuiesced { step, action } => occurrence
                == (DriverOccurrence::<P, C, O>::StepQuiesced { step, action }),
            Occurrence::CancellationOperationRequested { .. } => false,
            Occurrence::ForceAbortRequested { .. } => false,
        },
{
}

/// Two occurrences are the same exactly if they are of the same identity, name the same
/// step and tell the same: the same cause, the same left-behind content, the same decision
/// or the same outputs.
pub proof fn law_same_occurrences_tell_the_same(left: RecordedOccurrence, right: RecordedOccurrence)
    ensures
        occurrence_model(left) == occurrence_model(right) <==> left.identified()
            == right.identified() && (match (left, right) {
            (
                DriverOccurrence::StepStarted { step, .. },
                DriverOccurrence::StepStarted { step: other, .. },
            ) => step@ == other@,
            (
                DriverOccurrence::StepStartFailed { step, cause, .. },
                DriverOccurrence::StepStartFailed { step: other, cause: told, .. },
            ) => step@ == other@ && cause@ == told@,
            (
                DriverOccurrence::StepExecutionCompleted { step, provisional, .. },
                DriverOccurrence::StepExecutionCompleted { step: other, provisional: told, .. },
            ) => step@ == other@ && provisional@ == told@,
            (
                DriverOccurrence::StepExecutionFailed { step, cause, .. },
                DriverOccurrence::StepExecutionFailed { step: other, cause: told, .. },
            ) => step@ == other@ && cause@ == told@,
            (
                DriverOccurrence::OutputsCaptured { step, outputs, .. },
                DriverOccurrence::OutputsCaptured { step: other, outputs: told, .. },
            ) => step@ == other@ && output_contents(outputs) == output_contents(told),
            (
                DriverOccurrence::OutputCaptureFailed { step, cause, .. },
                DriverOccurrence::OutputCaptureFailed { step: other, cause: told, .. },
            ) => step@ == other@ && cause@ == told@,
            (
                DriverOccurrence::RecoveryHandlerStarted { step, .. },
                DriverOccurrence::RecoveryHandlerStarted { step: other, .. },
            ) => step@ == other@,
            (
                DriverOccurrence::RecoveryHandlerStartFailed { step, cause, .. },
                DriverOccurrence::RecoveryHandlerStartFailed { step: other, cause: told, .. },
            ) => step@ == other@ && cause@ == told@,
            (
                DriverOccurrence::RecoveryHandlerCompleted { step, decision, .. },
                DriverOccurrence::RecoveryHandlerCompleted { step: other, decision: told, .. },
            ) => step@ == other@ && decision.content@ == told.content@,
            (
                DriverOccurrence::RecoveryHandlerExecutionFailed { step, cause, .. },
                DriverOccurrence::RecoveryHandlerExecutionFailed { step: other, cause: told, .. },
            ) => step@ == other@ && cause@ == told@,
            (
                DriverOccurrence::StepQuiesced { step, .. },
                DriverOccurrence::StepQuiesced { step: other, .. },
            ) => step@ == other@,
            _ => false,
        }),
{
}

/// Outputs are told by the bytes of every one of them, under its name.
pub proof fn law_outputs_are_their_contents(outputs: crate::named::NamedValues<Vec<u8>>)
    ensures
        forall|name: Seq<char>| #[trigger]
            output_contents(outputs).dom().contains(name) <==> outputs.contents().dom().contains(
                name,
            ),
        forall|name: Seq<char>| #[trigger]
            outputs.contents().dom().contains(name) ==> output_contents(outputs)[name]
                == outputs.contents()[name]@,
{
}

/// What is recorded of an action tells the action: its identifier, its kind, the step that
/// it names, and its execution number or recovery round where it has one.
pub proof fn law_records_tell_their_action(requested: RequestedAction)
    ensures
        ({
            let record = committed_model(requested);
            &&& record.id == requested.id
            &&& match record.kind {
                CommittedActionKind::StartStep => requested.action matches Action::StartStep {
                    step,
                    execution_number,
                } && record.step == Some(step@) && record.execution_number == Some(
                    execution_number,
                ) && record.recovery_round is None,
                CommittedActionKind::StartRecoveryHandler => requested.action
                    matches Action::StartRecoveryHandler { step, round } && record.step == Some(
                    step@,
                ) && record.recovery_round == Some(round) && record.execution_number is None,
                CommittedActionKind::CaptureOutputs => requested.action
                    matches Action::CaptureOutputs { step } && record.step == Some(step@)
                    && record.execution_number is None && record.recovery_round is None,
                CommittedActionKind::CancelStep => requested.action matches Action::CancelStep {
                    step,
                } && record.step == Some(step@) && record.execution_number is None
                    && record.recovery_round is None,
                CommittedActionKind::ForceAbortStep => requested.action
                    matches Action::ForceAbortStep { step } && record.step == Some(step@)
                    && record.execution_number is None && record.recovery_round is None,
                CommittedActionKind::FinishRun => requested.action is FinishRun && record.step
                    is None && record.execution_number is None && record.recovery_round is None,
            }
        }),
{
}

/// A cancellation keeps its identifier. A graceful one keeps its reason and is due at the
/// end of the grace period; a force abort gives no reason and is due at once.
pub proof fn law_only_graceful_cancellations_have_grace(
    operation: CancellationOperation,
    now: int,
    grace: int,
)
    ensures
        ({
            let (id, reason, deadline) = cancellation_form(operation, now, grace);
            &&& reason matches Some(reason) ==> operation == (CancellationOperation::Graceful {
                id,
                reason,
            }) && deadline - now == grace
            &&& reason is None ==> operation == (CancellationOperation::ForceAbort { id })
                && deadline == now
        }),
{
}

/// After a failed commit nothing is kept, told or released; only what entering
/// finalization had prepared is taken back.
pub proof fn law_failed_commits_have_no_effect(
    arm_started: bool,
    acknowledged: bool,
    accepted: bool,
    terminal: bool,
    actions: nat,
)
    ensures
        ({
            let plan = commit_plan(false, arm_started, acknowledged, accepted, terminal, actions);
            &&& plan.len() == (if arm_started {
                1int
            } else {
                0int
            })
            &&& arm_started ==> plan[0] == CommitEffect::AbortFinalizationArm
        }),
{
}

/// After a commit that succeeded each effect that is due is done just once, in this order:
/// the state is kept, what entering finalization had prepared is made good, the driver is
/// told the decision, occurrences are closed where the run ended, and every action is
/// released, the first one first. Nothing else is done.
pub proof fn law_commits_have_their_effects_in_order(
    arm_started: bool,
    acknowledged: bool,
    accepted: bool,
    terminal: bool,
    actions: nat,
)
    requires
        actions <= usize::MAX,
    ensures
        ({
            let plan = commit_plan(true, arm_started, acknowledged, accepted, terminal, actions);
            let arm = if arm_started {
                1int
            } else {
                0int
            };
            let told = arm + if acknowledged {
                1int
            } else {
                0int
            };
            let closed = told + if terminal {
                1int
            } else {
                0int
            };
            &&& plan.len() == 1 + closed + actions
            &&& plan[0] == CommitEffect::StoreState
            &&& arm_started ==> plan[1] == CommitEffect::CompleteFinalizationArm
            &&& acknowledged ==> plan[1 + arm] == (CommitEffect::Acknowledge { accepted })
            &&& terminal ==> plan[1 + told] == CommitEffect::CloseOccurrences
            &&& forall|index: int|
                0 <= index < actions ==> #[trigger] plan[1 + closed + index]
                    == (CommitEffect::Release { index: index as usize })
        }),
{
}

/// A graceful cancellation becomes a request for its reason that is due at the end of the grace
/// period, a force abort one that is due at once; both under their own identifier.
pub proof fn law_cancellations_become_requests<P, C, O>(
    operation: CancellationOperation,
    now: u64,
    grace: u64,
    occurrence: Occurrence<P, C, O>,
)
    requires
        now + grace <= u64::MAX,
        call_ensures(cancellation_occurrence::<P, C, O>, (operation, now, grace), occurrence),
    ensures
        operation matches CancellationOperation::Graceful { id, reason } ==> (occurrence
            matches Occurrence::CancellationOperationRequested {
            operation: told,
            reason: why,
            deadline,
        } && told == id && why == reason && deadline == now + grace),
        operation matches CancellationOperation::ForceAbort { id } ==> (occurrence
            matches Occurrence::ForceAbortRequested { operation: told, deadline } && told == id
            && deadline == now),
{
}

/// A cancellation that a run starts with keeps its reason and has the whole grace period.
pub proof fn law_initial_requests_have_grace(
    initial: InitialCancellation,
    now: u64,
    grace: u64,
    request: CancellationRequest,
)
    requires
        now + grace <= u64::MAX,
        call_ensures(initial_request, (initial, now, grace), request),
    ensures
        request.reason == initial.reason,
        request.deadline - grace == now,
{
}

/// What is done after a commit goes by the effect that was committed: the driver is told
/// whether just this occurrence was accepted, occurrences close exactly where the run has
/// ended, and just the actions that it asks for are released.
pub proof fn law_effects_are_those_of_the_reduction<S>(
    reduction: &Reduction<S>,
    committed: bool,
    arm_started: bool,
    acknowledged: bool,
    effects: Vec<CommitEffect>,
    index: int,
)
    requires
        call_ensures(
            commit_effects::<S>,
            (reduction, committed, arm_started, acknowledged),
            effects,
        ),
        0 <= index < effects@.len(),
    ensures
        effects@[index] matches CommitEffect::Acknowledge { accepted } ==> committed && acknowledged
            && accepted == reduction.occurrence_accepted,
        effects@[index] == CommitEffect::CloseOccurrences ==> committed && (reduction.workflow
            is Succeeded || reduction.workflow is Failed || reduction.workflow is Cancelled),
        effects@[index] matches CommitEffect::Release { index: place } ==> committed && place
            < reduction.actions@.len(),
        effects@[index] == CommitEffect::StoreState ==> committed,
        effects@[index] == CommitEffect::AbortFinalizationArm <==> !committed,
        effects@[index] == CommitEffect::CompleteFinalizationArm ==> committed && arm_started,
{
    broadcast use vstd::std_specs::vec::group_vec_axioms;

    let plan = effects@;
    let actions = reduction.actions@.len();
    assert(reduction.actions.len() == actions);
    if committed {
        law_commits_have_their_effects_in_order(
            arm_started,
            acknowledged,
            reduction.occurrence_accepted,
            reduction.workflow.terminal(),
            actions,
        );
        let closed = plan.len() - 1 - actions;
        if index > closed {
            assert(plan[1 + closed + (index - 1 - closed)] == plan[index]);
        }
    } else {
        law_failed_commits_have_no_effect(
            arm_started,
            acknowledged,
            reduction.occurrence_accepted,
            reduction.workflow.terminal(),
            actions,
        );
    }
}

/// An occurrence that came again exactly has no effect; a new one has its own.
pub proof fn law_replays_change_nothing<S>(
    exact_replay: bool,
    state: S,
    workflow: WorkflowState,
    reduction: Option<Reduction<S>>,
)
    requires
        call_ensures(Reduction::<S>::of_replay, (exact_replay, state, workflow), reduction),
    ensures
        reduction is Some <==> exact_replay,
        reduction matches Some(reduction) ==> reduction.state == state && reduction.workflow
            == workflow && reduction.events@.len() == 0 && reduction.actions@.len() == 0
            && !reduction.occurrence_accepted && !reduction.capacity_exceeded,
{
}

/// A run enters finalization exactly if one of the events says so, and a commit reports just a
/// limit that was reached.
pub proof fn law_reductions_tell_their_events<S>(
    reduction: &Reduction<S>,
    entered: bool,
    diagnostic: Option<CoordinationDiagnostic>,
)
    requires
        call_ensures(Reduction::<S>::entered_finalization, (reduction,), entered),
        call_ensures(Reduction::<S>::diagnostic, (reduction,), diagnostic),
    ensures
        entered <==> exists|i: int|
            0 <= i < reduction.events@.len() && #[trigger] reduction.events@[i] == (
            TransitionEvent::Workflow { to: WorkflowStateKind::Finalizing }),
        diagnostic is Some <==> reduction.capacity_exceeded,
{
    if entered {
        let i = choose|i: int|
            0 <= i < reduction.events@.len() && (
            #[trigger] reduction.events@[i] matches TransitionEvent::Workflow { to } && to
                == WorkflowStateKind::Finalizing);
        assert(reduction.events@[i] == (TransitionEvent::Workflow {
            to: WorkflowStateKind::Finalizing,
        }));
    }
}

/// A coordinated run hands back its last state under its last place, where there is one.
pub proof fn law_runs_hand_back_their_last_state<S>(
    state: Option<S>,
    place: OccurrenceOrdinal,
    result: Result<CoordinationResult<S>, CoordinationError>,
)
    requires
        call_ensures(coordination_result::<S>, (state, place), result),
    ensures
        result is Ok <==> state is Some,
        result matches Ok(handed) ==> Some(handed.state) == state && handed.last_occurrence_ordinal
            == place,
        result matches Err(error) ==> error == CoordinationError::ReducerStateUnavailable,
{
}

/// A run has ended exactly if it succeeded, failed or was cancelled.
pub proof fn law_ended_states(state: WorkflowState)
    ensures
        state.terminal() <==> !(state is Executing) && !(state is Finalizing),
{
}

} // verus!

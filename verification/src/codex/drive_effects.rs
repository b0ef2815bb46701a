//! What each event does to a drive: what the drive notes of it, what it does about it at
//! once, and where it goes on; and what a whole drive reports.

use vstd::prelude::*;

use crate::agent::{AgentFailureCause, AgentHarnessSetupStage};
use crate::codex::drive::{
    after_select_rule, conclude_rule, drive_process_rule, error_emit_rule, failing_rule,
    flushed_rule,
    interrupting_rule, loop_end_rule, loop_top_rule, parse_failed_rule,
    parsed_rule, possible, progress_close_rule, progress_emit_rule, progress_start_rule,
    progress_write_rule, quiescence_emitted_rule, read_failed_rule, result_emitted_rule,
    resume_rule, selected_rule, validated_rule, waited_rule, wind_up_rule, DriveAction,
    DriveEvent, DriveOutcome, DrivePhase, DriveState, DriveTurn, ParserProgress, ResultVerdict,
};
use crate::codex::drive_laws::{lemma_next_turn, turn_after, turn_at};
use crate::evidence::CancellationReason;

verus! {

/// Whether a turn leaves all that is remembered as it was and does nothing beside its
/// action.
spec fn only_moves(state: DriveState, turn: DriveTurn) -> bool {
    &&& turn.state == (DriveState { phase: turn.state.phase, ..state })
    &&& !turn.force && !turn.drop_input && !turn.arm_cleanup && !turn.arm_settlement
    &&& matching(turn.state.phase, turn.action)
}

/// Whether an action is the one that a drive waits for in a phase.
pub open spec fn matching(phase: DrivePhase, action: DriveAction) -> bool {
    match phase {
        DrivePhase::Opening => false,
        DrivePhase::Selecting => action == DriveAction::Select,
        DrivePhase::Interrupting { .. } => action == DriveAction::Interrupt,
        DrivePhase::ClosingAfterInterrupt { .. } => action == DriveAction::CloseInput,
        DrivePhase::Reporting { .. } => action == DriveAction::ReportStart,
        DrivePhase::Emitting { .. } => action == DriveAction::Emit,
        DrivePhase::Writing { .. } => action == DriveAction::WriteFrames,
        DrivePhase::Closing => action == DriveAction::CloseInput,
        DrivePhase::ErrorReporting { .. } => action == DriveAction::ReportStart,
        DrivePhase::ErrorEmitting { .. } => action == DriveAction::Emit,
        DrivePhase::Flushing { .. } => action == DriveAction::FlushAndClose,
        DrivePhase::Taking => action == DriveAction::TakeCandidate,
        DrivePhase::Validating => action == DriveAction::Validate,
        DrivePhase::EmittingResult { accepted } => action == (DriveAction::EmitVerdict {
            accepted,
        }),
        DrivePhase::Applying => action == DriveAction::ApplyVerdict,
        DrivePhase::ProbingEnd => action == DriveAction::ProbeQuiescence,
        DrivePhase::ProbingTop => action == DriveAction::ProbeQuiescence,
        DrivePhase::Awaiting => action == DriveAction::AwaitProcess,
        DrivePhase::ForceStopping => action == DriveAction::ForceStop,
        DrivePhase::Stopping => action == DriveAction::StopSupervisor,
        DrivePhase::EmittingQuiescence => action == DriveAction::EmitQuiescence,
        DrivePhase::Ended => action is Finish || action == DriveAction::Rest,
    }
}

/// Where a drive waits next, given what it remembers: for an event while there is output to
/// come or the process may still exit; else for what is left of the process group while an
/// accepted result settles; else for the process, and last for its supervisor.
pub open spec fn waiting_place(state: DriveState) -> DrivePhase {
    if !state.output_closed {
        DrivePhase::Selecting
    } else if state.completion is None && !state.wait_failed {
        DrivePhase::Selecting
    } else if state.settling {
        DrivePhase::ProbingTop
    } else if state.completion is None {
        DrivePhase::Awaiting
    } else {
        DrivePhase::Stopping
    }
}

/// Where a drive goes on once a candidate was dealt with: it looks whether an accepted
/// result has settled, where output has ended and the process has exited.
pub open spec fn settling_place(state: DriveState) -> DrivePhase {
    if state.settling && state.output_closed && state.completion is Some {
        DrivePhase::ProbingEnd
    } else {
        waiting_place(state)
    }
}

/// Where a drive goes on once an event was dealt with: it looks for a candidate, as long as
/// output is parsed.
pub open spec fn following_place(state: DriveState) -> DrivePhase {
    if state.parser_enabled {
        DrivePhase::Taking
    } else {
        settling_place(state)
    }
}

/// Where a drive goes on with parsed output whose observations were passed on.
pub open spec fn writing_place(state: DriveState, progress: ParserProgress) -> DrivePhase {
    if state.parser_enabled {
        DrivePhase::Writing { progress }
    } else {
        closing_place(state, progress)
    }
}

/// Where a drive goes on with parsed output whose answers were written.
pub open spec fn closing_place(state: DriveState, progress: ParserProgress) -> DrivePhase {
    if progress.close_standard_input {
        DrivePhase::Closing
    } else {
        following_place(state)
    }
}

/// Where a drive goes on with parsed output whose start was dealt with.
pub open spec fn emitting_place(state: DriveState, progress: ParserProgress) -> DrivePhase {
    if state.parser_enabled && state.cancelled is None {
        DrivePhase::Emitting { progress }
    } else {
        writing_place(state, progress)
    }
}

proof fn lemma_wind_up(state: DriveState)
    ensures
        only_moves(state, wind_up_rule(state)),
        wind_up_rule(state).state.phase == (if state.completion is None {
            DrivePhase::Awaiting
        } else {
            DrivePhase::Stopping
        }),
{
    reveal(wind_up_rule);
}

proof fn lemma_loop_top(state: DriveState)
    ensures
        only_moves(state, loop_top_rule(state)),
        loop_top_rule(state).state.phase == waiting_place(state),
{
    lemma_wind_up(state);
    reveal(loop_top_rule);
}

proof fn lemma_loop_end(state: DriveState)
    ensures
        only_moves(state, loop_end_rule(state)),
        loop_end_rule(state).state.phase == settling_place(state),
{
    lemma_loop_top(state);
    reveal(loop_end_rule);
}

proof fn lemma_after_select(state: DriveState)
    ensures
        only_moves(state, after_select_rule(state)),
        after_select_rule(state).state.phase == following_place(state),
{
    lemma_loop_end(state);
    reveal(after_select_rule);
}

proof fn lemma_progress_close(state: DriveState, progress: ParserProgress)
    ensures
        only_moves(state, progress_close_rule(state, progress)),
        progress_close_rule(state, progress).state.phase == closing_place(state, progress),
{
    lemma_after_select(state);
    reveal(progress_close_rule);
}

proof fn lemma_progress_write(state: DriveState, progress: ParserProgress)
    ensures
        only_moves(state, progress_write_rule(state, progress)),
        progress_write_rule(state, progress).state.phase == writing_place(state, progress),
{
    lemma_progress_close(state, progress);
    reveal(progress_write_rule);
}

proof fn lemma_progress_emit(state: DriveState, progress: ParserProgress)
    ensures
        only_moves(state, progress_emit_rule(state, progress)),
        progress_emit_rule(state, progress).state.phase == emitting_place(state, progress),
{
    lemma_progress_write(state, progress);
    reveal(progress_emit_rule);
}

proof fn lemma_error_emit(state: DriveState, cause: AgentFailureCause)
    ensures
        only_moves(state, error_emit_rule(state, cause)),
        error_emit_rule(state, cause).state.phase == (if state.cancelled is None {
            DrivePhase::ErrorEmitting { cause }
        } else {
            DrivePhase::Flushing { cause }
        }),
{
    reveal(error_emit_rule);
}

/// Whether parsed output that tells of a start is dealt with as it should be: a start that
/// came before is a failure, one that did not is reported, and after a cancellation neither
/// happens.
spec fn starts(state: DriveState, progress: ParserProgress, turn: DriveTurn) -> bool {
    let told = state.cancelled is None && progress.start_acknowledged;
    &&& !turn.drop_input && !turn.arm_cleanup && !turn.arm_settlement
    &&& matching(turn.state.phase, turn.action)
    &&& turn.action != DriveAction::Interrupt
    &&& turn.force <==> told && state.start_reported
    &&& turn.state == (DriveState {
        phase: turn.state.phase,
        failure: if told && state.start_reported {
            Some(start_failure())
        } else {
            state.failure
        },
        parser_enabled: state.parser_enabled && !(told && state.start_reported),
        ..state
    })
    &&& turn.state.phase == (if told && !state.start_reported {
        DrivePhase::Reporting { progress }
    } else {
        emitting_place(turn.state, progress)
    })
}

proof fn lemma_progress_start(state: DriveState, progress: ParserProgress)
    ensures
        starts(state, progress, progress_start_rule(state, progress)),
{
    reveal(progress_start_rule);
    lemma_progress_emit(state, progress);
    lemma_progress_emit(failing_rule(state, start_failure()), progress);
}

proof fn lemma_resume(state: DriveState, after: Option<ParserProgress>)
    ensures
        match after {
            Some(progress) => starts(state, progress, resume_rule(state, after)),
            None => only_moves(state, resume_rule(state, after)) && resume_rule(
                state,
                after,
            ).state.phase == following_place(state),
        },
{
    reveal(resume_rule);
    lemma_after_select(state);
    if let Some(progress) = after {
        lemma_progress_start(state, progress);
    }
}

/// The failure of a start that came twice or could not be reported.
pub open spec fn start_failure() -> AgentFailureCause {
    AgentFailureCause::HarnessSetupFailed { stage: AgentHarnessSetupStage::StartAcknowledgement }
}

/// Completion is the exit.
spec fn effect_completion_is_the_exit(
    state: DriveState,
    event: DriveEvent,
    turn: DriveTurn,
) -> bool {
    turn.state.completion == (match event {
        DriveEvent::Waited { success: Some(success), .. } => if state.phase
            == DrivePhase::Selecting || state.phase == DrivePhase::Awaiting {
            Some(success)
        } else {
            state.completion
        },
        _ => state.completion,
    })
}

/// Output closes at its end.
spec fn effect_output_closes_at_its_end(
    state: DriveState,
    event: DriveEvent,
    turn: DriveTurn,
) -> bool {
    turn.state.output_closed <==> state.output_closed || (
    state.phase == DrivePhase::Selecting && (event is OutputEnded || event is OutputFailed))
}

/// Waiting fails without an exit.
spec fn effect_waiting_fails_without_an_exit(
    state: DriveState,
    event: DriveEvent,
    turn: DriveTurn,
) -> bool {
    turn.state.wait_failed <==> state.wait_failed || (state.phase
        == DrivePhase::Selecting && (event matches DriveEvent::Waited { success, .. }
        && success is None))
}

/// Starts count once reported.
spec fn effect_starts_count_once_reported(
    state: DriveState,
    event: DriveEvent,
    turn: DriveTurn,
) -> bool {
    turn.state.start_reported <==> state.start_reported || ((
    state.phase is Reporting || state.phase is ErrorReporting) && event == (
    DriveEvent::Answered { succeeded: true }))
}

/// Interrupts close with their source.
spec fn effect_interrupts_close_with_their_source(
    state: DriveState,
    event: DriveEvent,
    turn: DriveTurn,
) -> bool {
    turn.state.interrupts_open <==> state.interrupts_open && !(
    state.phase == DrivePhase::Selecting && event is InterruptsClosed)
}

/// Results settle from acceptance.
spec fn effect_results_settle_from_acceptance(
    state: DriveState,
    event: DriveEvent,
    turn: DriveTurn,
) -> bool {
    let accepted = state.phase == (DrivePhase::EmittingResult { accepted: true }) && !(
    event matches DriveEvent::Emitted { failure } && failure is Some);
    let over = state.phase == DrivePhase::Selecting && event is SettlementElapsed
        || state.phase == DrivePhase::ProbingEnd && event == (DriveEvent::Probed {
        quiescent: true,
    });
    &&& turn.arm_settlement <==> accepted
    &&& turn.state.settling <==> accepted || (state.settling && !over)
}

/// Cleanup follows broken output.
spec fn effect_cleanup_follows_broken_output(
    state: DriveState,
    event: DriveEvent,
    turn: DriveTurn,
) -> bool {
    let armed = state.phase is Flushing && state.cancelled is None;
    let over = state.phase == DrivePhase::Selecting && event is CleanupElapsed;
    &&& turn.arm_cleanup <==> armed
    &&& turn.state.cleanup_armed <==> armed || (state.cleanup_armed && !over)
    &&& over ==> turn.force
}

/// Cancellations are taken as told.
spec fn effect_cancellations_are_taken_as_told(
    state: DriveState,
    event: DriveEvent,
    turn: DriveTurn,
) -> bool {
    turn.state.cancelled == (match event {
        DriveEvent::CancellationAccepted { reason } => Some(reason),
        DriveEvent::InterruptRequested { reason: Some(reason) } => Some(reason),
        DriveEvent::Validated { verdict: ResultVerdict::Cancelled { reason } } => Some(reason),
        DriveEvent::Parsed { reason, .. } => if state.cancelled is None {
            reason
        } else {
            state.cancelled
        },
        DriveEvent::SupervisorStopped { reason, .. } => if state.cancelled is None {
            reason
        } else {
            state.cancelled
        },
        _ => state.cancelled,
    })
}

/// Interruptions follow requests.
spec fn effect_interruptions_follow_requests(
    state: DriveState,
    event: DriveEvent,
    turn: DriveTurn,
) -> bool {
    let asked = event is CancellationAccepted || event is InterruptRequested || (
    event matches DriveEvent::Parsed { reason, .. } && reason is Some
        && state.cancelled is None);
    &&& turn.action == DriveAction::Interrupt <==> asked && !state.interrupt_started
    &&& turn.state.interrupt_started <==> state.interrupt_started || asked
}

/// Failures are those that happened.
spec fn effect_failures_are_those_that_happened(
    state: DriveState,
    event: DriveEvent,
    turn: DriveTurn,
) -> bool {
    turn.state.failure == (match (state.phase, event) {
        (DrivePhase::Opening, DriveEvent::Wrote { failure: Some(cause) }) => Some(cause),
        (DrivePhase::Selecting, DriveEvent::OutputFailed { phase_failure }) => if
            state.parser_enabled {
            Some(phase_failure)
        } else {
            state.failure
        },
        (DrivePhase::Selecting, DriveEvent::Waited { success: None, phase_failure }) => if
            state.cancelled is None && state.failure is None {
            Some(phase_failure)
        } else {
            state.failure
        },
        (DrivePhase::Selecting, DriveEvent::SettlementElapsed) => Some(
            AgentFailureCause::ResultSettlementFailed,
        ),
        (DrivePhase::Selecting, DriveEvent::Parsed { progress, reason }) => if
            state.cancelled is None && reason is None && progress.start_acknowledged
            && state.start_reported {
            Some(start_failure())
        } else {
            state.failure
        },
        (
            DrivePhase::Interrupting { after: Some(progress) },
            DriveEvent::Answered { succeeded: true },
        ) => if state.cancelled is None && progress.start_acknowledged
            && state.start_reported {
            Some(start_failure())
        } else {
            state.failure
        },
        (DrivePhase::ClosingAfterInterrupt { after: Some(progress) }, _) => if
            state.cancelled is None && progress.start_acknowledged && state.start_reported {
            Some(start_failure())
        } else {
            state.failure
        },
        (DrivePhase::Reporting { .. }, DriveEvent::Answered { succeeded: false }) => Some(
            start_failure(),
        ),
        (DrivePhase::Emitting { .. }, DriveEvent::Emitted { failure: Some(cause) }) => Some(
            cause,
        ),
        (DrivePhase::Writing { .. }, DriveEvent::Wrote { failure: Some(cause) }) => if
            state.cancelled is None {
            Some(cause)
        } else {
            state.failure
        },
        (DrivePhase::Closing, DriveEvent::Answered { succeeded: false }) => if
            state.cancelled is None {
            Some(AgentFailureCause::HarnessProtocolFailed)
        } else {
            state.failure
        },
        (DrivePhase::Flushing { cause }, _) => if state.cancelled is None {
            Some(cause)
        } else {
            state.failure
        },
        (DrivePhase::Taking, DriveEvent::CandidateTaken { validator_present: false }) => Some(
            AgentFailureCause::HarnessProtocolFailed,
        ),
        (
            DrivePhase::Validating,
            DriveEvent::Validated { verdict: ResultVerdict::Fatal { cause } },
        ) => Some(cause),
        (DrivePhase::EmittingResult { .. }, DriveEvent::Emitted { failure: Some(cause) }) => {
            Some(cause)
        },
        (DrivePhase::Applying, DriveEvent::Wrote { failure: Some(cause) }) => Some(cause),
        _ => state.failure,
    })
}

/// Parsing ends when something breaks.
spec fn effect_parsing_ends_when_something_breaks(
    state: DriveState,
    event: DriveEvent,
    turn: DriveTurn,
) -> bool {
    let next = turn.state;
    let broken = match (state.phase, event) {
        (DrivePhase::Interrupting { .. }, DriveEvent::Answered { succeeded }) => {
            !succeeded
        },
        (DrivePhase::Selecting, DriveEvent::Waited { success, .. }) => success is None,
        (DrivePhase::Validating, DriveEvent::Validated { verdict }) => verdict
            is Cancelled,
        (DrivePhase::Writing { .. }, DriveEvent::Wrote { failure }) => failure is Some,
        (DrivePhase::Closing, DriveEvent::Answered { succeeded }) => !succeeded,
        (DrivePhase::Flushing { .. }, _) => true,
        _ => false,
    };
    let noted = match (state.phase, event) {
        (DrivePhase::Selecting, DriveEvent::SettlementElapsed) => true,
        (DrivePhase::Selecting, DriveEvent::OutputFailed { .. }) => true,
        (DrivePhase::Opening, DriveEvent::Wrote { failure }) => failure is Some,
        (DrivePhase::Emitting { .. }, DriveEvent::Emitted { failure }) => failure is Some,
        (DrivePhase::EmittingResult { .. }, DriveEvent::Emitted { failure }) => {
            failure is Some
        },
        (DrivePhase::Applying, DriveEvent::Wrote { failure }) => failure is Some,
        (DrivePhase::Taking, DriveEvent::CandidateTaken { validator_present }) => {
            !validator_present
        },
        (DrivePhase::Validating, DriveEvent::Validated { verdict }) => verdict is Fatal,
        (DrivePhase::Reporting { .. }, DriveEvent::Answered { succeeded }) => !succeeded,
        _ => false,
    };
    let started_twice = match (state.phase, event) {
        (DrivePhase::Selecting, DriveEvent::Parsed { progress, reason }) => {
            progress.start_acknowledged && reason is None
        },
        (DrivePhase::Interrupting { after: Some(progress) }, _) => {
            progress.start_acknowledged
        },
        (DrivePhase::ClosingAfterInterrupt { after: Some(progress) }, _) => {
            progress.start_acknowledged
        },
        _ => false,
    } && state.start_reported && state.cancelled is None;
    next.parser_enabled <==> state.parser_enabled && !broken && !noted && !started_twice
}

/// Broken runs are forced to stop.
spec fn effect_broken_runs_are_forced_to_stop(
    state: DriveState,
    event: DriveEvent,
    turn: DriveTurn,
) -> bool {
    let dropped = match (state.phase, event) {
        (DrivePhase::Opening, DriveEvent::Wrote { failure }) => failure is Some,
        (DrivePhase::Selecting, DriveEvent::SettlementElapsed) => true,
        (DrivePhase::Taking, DriveEvent::CandidateTaken { validator_present }) => {
            !validator_present
        },
        (DrivePhase::Validating, DriveEvent::Validated { verdict }) => verdict is Fatal,
        (DrivePhase::EmittingResult { .. }, DriveEvent::Emitted { failure }) => {
            failure is Some
        },
        (DrivePhase::Applying, DriveEvent::Wrote { failure }) => failure is Some,
        _ => false,
    };
    let forced = match (state.phase, event) {
        (DrivePhase::Selecting, DriveEvent::CleanupElapsed) => true,
        (DrivePhase::Selecting, DriveEvent::OutputFailed { .. }) => state.parser_enabled,
        (DrivePhase::Selecting, DriveEvent::Waited { success, .. }) => success is None,
        (DrivePhase::Selecting, DriveEvent::Parsed { progress, reason }) => {
            progress.start_acknowledged && state.start_reported && state.cancelled is None
                && reason is None
        },
        (DrivePhase::Interrupting { after }, DriveEvent::Answered { succeeded }) => {
            succeeded && state.start_reported && state.cancelled is None && (
            after matches Some(progress) && progress.start_acknowledged)
        },
        (DrivePhase::ClosingAfterInterrupt { after }, _) => {
            state.start_reported && state.cancelled is None && (after matches Some(
                progress,
            ) && progress.start_acknowledged)
        },
        (DrivePhase::Reporting { .. }, DriveEvent::Answered { succeeded }) => !succeeded,
        (DrivePhase::Emitting { .. }, DriveEvent::Emitted { failure }) => failure is Some,
        (DrivePhase::Writing { .. }, DriveEvent::Wrote { failure }) => failure is Some
            && state.cancelled is None,
        (DrivePhase::Closing, DriveEvent::Answered { succeeded }) => !succeeded
            && state.cancelled is None,
        _ => false,
    };
    &&& turn.force <==> dropped || forced
    &&& turn.drop_input <==> dropped || (event matches DriveEvent::Validated { verdict }
        && verdict is Cancelled)
}

/// Actions are awaited.
spec fn effect_actions_are_awaited(
    state: DriveState,
    event: DriveEvent,
    turn: DriveTurn,
) -> bool {
    matching(turn.state.phase, turn.action)
}

/// Where a drive goes on with parsed output.
pub open spec fn starting_place(
    state: DriveState,
    next: DriveState,
    progress: ParserProgress,
) -> DrivePhase {
    if next.cancelled is None && progress.start_acknowledged && !state.start_reported {
        DrivePhase::Reporting { progress }
    } else {
        emitting_place(next, progress)
    }
}

/// Where a drive goes on with what broke parsing.
pub open spec fn breaking_place(state: DriveState, cause: AgentFailureCause) -> DrivePhase {
    if state.cancelled is None {
        DrivePhase::ErrorEmitting { cause }
    } else {
        DrivePhase::Flushing { cause }
    }
}

/// Where a drive goes on after an event, given what it then remembers.
pub open spec fn next_place(state: DriveState, event: DriveEvent, next: DriveState) -> DrivePhase {
    match state.phase {
        DrivePhase::Opening => waiting_place(next),
        DrivePhase::Selecting => match event {
            DriveEvent::CancellationAccepted { .. } => if state.interrupt_started {
                following_place(next)
            } else {
                DrivePhase::Interrupting { after: None }
            },
            DriveEvent::InterruptRequested { .. } => DrivePhase::Interrupting { after: None },
            DriveEvent::Parsed { progress, reason } => if state.cancelled is None && reason is Some
                && !state.interrupt_started {
                DrivePhase::Interrupting { after: Some(progress) }
            } else {
                starting_place(state, next, progress)
            },
            DriveEvent::ParseFailed { cause, start_acknowledged } => if state.cancelled is None
                && start_acknowledged && !state.start_reported {
                DrivePhase::ErrorReporting { cause }
            } else {
                breaking_place(state, cause)
            },
            _ => following_place(next),
        },
        DrivePhase::Interrupting { after } => if event == (DriveEvent::Answered {
            succeeded: false,
        }) {
            DrivePhase::ClosingAfterInterrupt { after }
        } else {
            match after {
                Some(progress) => starting_place(state, next, progress),
                None => following_place(next),
            }
        },
        DrivePhase::ClosingAfterInterrupt { after } => match after {
            Some(progress) => starting_place(state, next, progress),
            None => following_place(next),
        },
        DrivePhase::Reporting { progress } => emitting_place(next, progress),
        DrivePhase::Emitting { progress } => writing_place(next, progress),
        DrivePhase::Writing { progress } => closing_place(next, progress),
        DrivePhase::Closing => following_place(next),
        DrivePhase::ErrorReporting { cause } => if event == (DriveEvent::Answered {
            succeeded: true,
        }) {
            breaking_place(state, cause)
        } else {
            breaking_place(state, start_failure())
        },
        DrivePhase::ErrorEmitting { cause } => match event {
            DriveEvent::Emitted { failure: Some(broken) } => DrivePhase::Flushing {
                cause: broken,
            },
            _ => DrivePhase::Flushing { cause },
        },
        DrivePhase::Flushing { .. } => following_place(next),
        DrivePhase::Taking => match event {
            DriveEvent::CandidateTaken { validator_present: true } => DrivePhase::Validating,
            DriveEvent::CandidateTaken { .. } => waiting_place(next),
            _ => settling_place(next),
        },
        DrivePhase::Validating => match event {
            DriveEvent::Validated { verdict: ResultVerdict::Rejected } => {
                DrivePhase::EmittingResult { accepted: false }
            },
            DriveEvent::Validated { verdict: ResultVerdict::Valid } => {
                DrivePhase::EmittingResult { accepted: true }
            },
            _ => settling_place(next),
        },
        DrivePhase::EmittingResult { .. } => if event matches DriveEvent::Emitted { failure }
            && failure is Some {
            settling_place(next)
        } else {
            DrivePhase::Applying
        },
        DrivePhase::Applying => settling_place(next),
        DrivePhase::ProbingEnd => waiting_place(next),
        DrivePhase::ProbingTop => if event == (DriveEvent::Probed { quiescent: false }) {
            DrivePhase::Selecting
        } else if state.completion is None {
            DrivePhase::Awaiting
        } else {
            DrivePhase::Stopping
        },
        DrivePhase::Awaiting => if event matches DriveEvent::Waited { success, .. } && success
            is None {
            DrivePhase::ForceStopping
        } else {
            DrivePhase::Stopping
        },
        DrivePhase::ForceStopping => DrivePhase::Stopping,
        DrivePhase::Stopping => match event {
            DriveEvent::SupervisorStopped { supervisor_quiesced, group_quiescent, .. } => if
                next.cancelled is None && state.failure is None && !state.wait_failed
                && supervisor_quiesced && group_quiescent && state.output_closed {
                DrivePhase::EmittingQuiescence
            } else {
                DrivePhase::Ended
            },
            _ => DrivePhase::Ended,
        },
        DrivePhase::EmittingQuiescence => DrivePhase::Ended,
        DrivePhase::Ended => DrivePhase::Ended,
    }
}

/// Drives go on.
spec fn effect_drives_go_on(
    state: DriveState,
    event: DriveEvent,
    turn: DriveTurn,
) -> bool {
    turn.state.phase == next_place(state, event, turn.state)
}

/// All that holds of a turn.
#[verifier::opaque]
spec fn effects(state: DriveState, event: DriveEvent, turn: DriveTurn) -> bool {
    &&& effect_completion_is_the_exit(state, event, turn)
    &&& effect_output_closes_at_its_end(state, event, turn)
    &&& effect_waiting_fails_without_an_exit(state, event, turn)
    &&& effect_starts_count_once_reported(state, event, turn)
    &&& effect_interrupts_close_with_their_source(state, event, turn)
    &&& effect_results_settle_from_acceptance(state, event, turn)
    &&& effect_cleanup_follows_broken_output(state, event, turn)
    &&& effect_cancellations_are_taken_as_told(state, event, turn)
    &&& effect_interruptions_follow_requests(state, event, turn)
    &&& effect_failures_are_those_that_happened(state, event, turn)
    &&& effect_parsing_ends_when_something_breaks(state, event, turn)
    &&& effect_broken_runs_are_forced_to_stop(state, event, turn)
    &&& effect_actions_are_awaited(state, event, turn)
    &&& effect_drives_go_on(state, event, turn)
}

proof fn lemma_opening(state: DriveState, event: DriveEvent)
    requires
        possible(state, event),
        state.phase is Opening,
    ensures
        effects(state, event, drive_process_rule(state, event)),
{
    reveal(effects);
    reveal(drive_process_rule);
    lemma_loop_top(state);
    if let DriveEvent::Wrote { failure: Some(cause) } = event {
        lemma_loop_top(failing_rule(state, cause));
    }
}

proof fn lemma_interrupting(state: DriveState, event: DriveEvent)
    requires
        possible(state, event),
        state.phase is Interrupting,
    ensures
        effects(state, event, drive_process_rule(state, event)),
{
    reveal(effects);
    reveal(drive_process_rule);
    let after = match state.phase {
        DrivePhase::Interrupting { after } => after,
        DrivePhase::ClosingAfterInterrupt { after } => after,
        _ => None,
    };
    lemma_resume(state, after);
}

proof fn lemma_closing_after_interrupt(state: DriveState, event: DriveEvent)
    requires
        possible(state, event),
        state.phase is ClosingAfterInterrupt,
    ensures
        effects(state, event, drive_process_rule(state, event)),
{
    reveal(effects);
    reveal(drive_process_rule);
    let after = match state.phase {
        DrivePhase::Interrupting { after } => after,
        DrivePhase::ClosingAfterInterrupt { after } => after,
        _ => None,
    };
    lemma_resume(state, after);
}

proof fn lemma_reporting(state: DriveState, event: DriveEvent)
    requires
        possible(state, event),
        state.phase is Reporting,
    ensures
        effects(state, event, drive_process_rule(state, event)),
{
    reveal(effects);
    reveal(drive_process_rule);
    let progress = state.phase->Reporting_progress;
    lemma_progress_emit(DriveState { start_reported: true, ..state }, progress);
    lemma_progress_emit(failing_rule(state, start_failure()), progress);
}

proof fn lemma_emitting(state: DriveState, event: DriveEvent)
    requires
        possible(state, event),
        state.phase is Emitting,
    ensures
        effects(state, event, drive_process_rule(state, event)),
{
    reveal(effects);
    reveal(drive_process_rule);
    let progress = state.phase->Emitting_progress;
    lemma_progress_write(state, progress);
    if let DriveEvent::Emitted { failure: Some(cause) } = event {
        lemma_progress_write(failing_rule(state, cause), progress);
    }
}

proof fn lemma_writing(state: DriveState, event: DriveEvent)
    requires
        possible(state, event),
        state.phase is Writing,
    ensures
        effects(state, event, drive_process_rule(state, event)),
{
    reveal(effects);
    reveal(drive_process_rule);
    let progress = state.phase->Writing_progress;
    lemma_progress_close(state, progress);
    lemma_progress_close(DriveState { parser_enabled: false, ..state }, progress);
    if let DriveEvent::Wrote { failure: Some(cause) } = event {
        lemma_progress_close(failing_rule(state, cause), progress);
    }
}

proof fn lemma_closing(state: DriveState, event: DriveEvent)
    requires
        possible(state, event),
        state.phase is Closing,
    ensures
        effects(state, event, drive_process_rule(state, event)),
{
    reveal(effects);
    reveal(drive_process_rule);
    lemma_after_select(state);
    lemma_after_select(DriveState { parser_enabled: false, ..state });
    lemma_after_select(failing_rule(state, AgentFailureCause::HarnessProtocolFailed));
}

proof fn lemma_error_reporting(state: DriveState, event: DriveEvent)
    requires
        possible(state, event),
        state.phase is ErrorReporting,
    ensures
        effects(state, event, drive_process_rule(state, event)),
{
    reveal(effects);
    reveal(drive_process_rule);
    let cause = state.phase->ErrorReporting_cause;
    lemma_error_emit(DriveState { start_reported: true, ..state }, cause);
    lemma_error_emit(state, start_failure());
}

proof fn lemma_error_emitting(state: DriveState, event: DriveEvent)
    requires
        possible(state, event),
        state.phase is ErrorEmitting,
    ensures
        effects(state, event, drive_process_rule(state, event)),
{
    reveal(effects);
    reveal(drive_process_rule);
}

proof fn lemma_flushing(state: DriveState, event: DriveEvent)
    requires
        possible(state, event),
        state.phase is Flushing,
    ensures
        effects(state, event, drive_process_rule(state, event)),
{
    reveal(effects);
    reveal(drive_process_rule);
    reveal(flushed_rule);
    let cause = state.phase->Flushing_cause;
    lemma_after_select(DriveState { cleanup_armed: true, ..failing_rule(state, cause) });
    lemma_after_select(DriveState { parser_enabled: false, ..state });
}

proof fn lemma_taking(state: DriveState, event: DriveEvent)
    requires
        possible(state, event),
        state.phase is Taking,
    ensures
        effects(state, event, drive_process_rule(state, event)),
{
    reveal(effects);
    reveal(drive_process_rule);
    lemma_loop_end(state);
    lemma_loop_top(failing_rule(state, AgentFailureCause::HarnessProtocolFailed));
}

proof fn lemma_validated_cancelled(state: DriveState, event: DriveEvent)
    requires
        possible(state, event),
        state.phase is Validating,
        event matches DriveEvent::Validated { verdict } && verdict is Cancelled,
    ensures
        effects(state, event, drive_process_rule(state, event)),
{
    reveal(effects);
    reveal(drive_process_rule);
    reveal(validated_rule);
    if let DriveEvent::Validated { verdict: ResultVerdict::Cancelled { reason } } = event {
        lemma_loop_end(DriveState { cancelled: Some(reason), parser_enabled: false, ..state });
    }
}

proof fn lemma_validated_fatal(state: DriveState, event: DriveEvent)
    requires
        possible(state, event),
        state.phase is Validating,
        event matches DriveEvent::Validated { verdict } && verdict is Fatal,
    ensures
        effects(state, event, drive_process_rule(state, event)),
{
    reveal(effects);
    reveal(drive_process_rule);
    reveal(validated_rule);
    if let DriveEvent::Validated { verdict: ResultVerdict::Fatal { cause } } = event {
        lemma_loop_end(failing_rule(state, cause));
    }
}

proof fn lemma_validated_other(state: DriveState, event: DriveEvent)
    requires
        possible(state, event),
        state.phase is Validating,
        !(event matches DriveEvent::Validated { verdict } && (verdict is Cancelled || verdict
            is Fatal)),
    ensures
        effects(state, event, drive_process_rule(state, event)),
{
    reveal(effects);
    reveal(drive_process_rule);
    reveal(validated_rule);
    lemma_loop_end(state);
}

proof fn lemma_validating(state: DriveState, event: DriveEvent)
    requires
        possible(state, event),
        state.phase is Validating,
    ensures
        effects(state, event, drive_process_rule(state, event)),
{
    match event {
        DriveEvent::Validated { verdict: ResultVerdict::Cancelled { .. } } => {
            lemma_validated_cancelled(state, event);
        },
        DriveEvent::Validated { verdict: ResultVerdict::Fatal { .. } } => {
            lemma_validated_fatal(state, event);
        },
        _ => lemma_validated_other(state, event),
    }
}

proof fn lemma_emitting_result(state: DriveState, event: DriveEvent)
    requires
        possible(state, event),
        state.phase is EmittingResult,
    ensures
        effects(state, event, drive_process_rule(state, event)),
{
    reveal(effects);
    reveal(drive_process_rule);
    reveal(result_emitted_rule);
    if let DriveEvent::Emitted { failure: Some(cause) } = event {
        lemma_loop_end(failing_rule(state, cause));
    }
}

proof fn lemma_applying(state: DriveState, event: DriveEvent)
    requires
        possible(state, event),
        state.phase is Applying,
    ensures
        effects(state, event, drive_process_rule(state, event)),
{
    reveal(effects);
    reveal(drive_process_rule);
    lemma_loop_end(state);
    if let DriveEvent::Wrote { failure: Some(cause) } = event {
        lemma_loop_end(failing_rule(state, cause));
    }
}

proof fn lemma_probing_end(state: DriveState, event: DriveEvent)
    requires
        possible(state, event),
        state.phase is ProbingEnd,
    ensures
        effects(state, event, drive_process_rule(state, event)),
{
    reveal(effects);
    reveal(drive_process_rule);
    lemma_loop_top(state);
    lemma_loop_top(DriveState { settling: false, ..state });
}

proof fn lemma_probing_top(state: DriveState, event: DriveEvent)
    requires
        possible(state, event),
        state.phase is ProbingTop,
    ensures
        effects(state, event, drive_process_rule(state, event)),
{
    reveal(effects);
    reveal(drive_process_rule);
    lemma_wind_up(state);
}

proof fn lemma_awaiting(state: DriveState, event: DriveEvent)
    requires
        possible(state, event),
        state.phase is Awaiting,
    ensures
        effects(state, event, drive_process_rule(state, event)),
{
    reveal(effects);
    reveal(drive_process_rule);
}

proof fn lemma_force_stopping(state: DriveState, event: DriveEvent)
    requires
        possible(state, event),
        state.phase is ForceStopping,
    ensures
        effects(state, event, drive_process_rule(state, event)),
{
    reveal(effects);
    reveal(drive_process_rule);
}

/// The cancellation that counts once the supervisor has stopped.
spec fn last_cancellation(
    state: DriveState,
    reason: Option<CancellationReason>,
) -> Option<CancellationReason> {
    if state.cancelled is None {
        reason
    } else {
        state.cancelled
    }
}

proof fn lemma_conclude(
    state: DriveState,
    supervisor_quiesced: bool,
    group_quiescent: bool,
    reason: Option<CancellationReason>,
)
    ensures
        ({
            let turn = conclude_rule(state, supervisor_quiesced, group_quiescent, reason);
            &&& only_moves(
                DriveState { cancelled: last_cancellation(state, reason), ..state },
                turn,
            )
            &&& turn.state.phase == (if last_cancellation(state, reason) is None && state.failure
                is None && !state.wait_failed && supervisor_quiesced && group_quiescent
                && state.output_closed {
                DrivePhase::EmittingQuiescence
            } else {
                DrivePhase::Ended
            })
        }),
{
    reveal(conclude_rule);
}

proof fn lemma_stopping_cancellation(state: DriveState, event: DriveEvent)
    requires
        possible(state, event),
        state.phase is Stopping,
    ensures
        effect_cancellations_are_taken_as_told(state, event, drive_process_rule(state, event)),
{
    reveal(drive_process_rule);
    if let DriveEvent::SupervisorStopped { supervisor_quiesced, group_quiescent, reason } = event {
        lemma_conclude(state, supervisor_quiesced, group_quiescent, reason);
    }
}

proof fn lemma_stopping_failure(state: DriveState, event: DriveEvent)
    requires
        possible(state, event),
        state.phase is Stopping,
    ensures
        effect_failures_are_those_that_happened(state, event, drive_process_rule(state, event)),
{
    reveal(drive_process_rule);
    if let DriveEvent::SupervisorStopped { supervisor_quiesced, group_quiescent, reason } = event {
        lemma_conclude(state, supervisor_quiesced, group_quiescent, reason);
    }
}

proof fn lemma_stopping_parsing(state: DriveState, event: DriveEvent)
    requires
        possible(state, event),
        state.phase is Stopping,
    ensures
        effect_parsing_ends_when_something_breaks(state, event, drive_process_rule(state, event)),
{
    reveal(drive_process_rule);
    if let DriveEvent::SupervisorStopped { supervisor_quiesced, group_quiescent, reason } = event {
        lemma_conclude(state, supervisor_quiesced, group_quiescent, reason);
    }
}

proof fn lemma_stopping_force(state: DriveState, event: DriveEvent)
    requires
        possible(state, event),
        state.phase is Stopping,
    ensures
        effect_broken_runs_are_forced_to_stop(state, event, drive_process_rule(state, event)),
{
    reveal(drive_process_rule);
    if let DriveEvent::SupervisorStopped { supervisor_quiesced, group_quiescent, reason } = event {
        lemma_conclude(state, supervisor_quiesced, group_quiescent, reason);
    }
}

proof fn lemma_stopping_rest(state: DriveState, event: DriveEvent)
    requires
        possible(state, event),
        state.phase is Stopping,
    ensures
        effect_completion_is_the_exit(state, event, drive_process_rule(state, event)),
        effect_output_closes_at_its_end(state, event, drive_process_rule(state, event)),
        effect_waiting_fails_without_an_exit(state, event, drive_process_rule(state, event)),
        effect_starts_count_once_reported(state, event, drive_process_rule(state, event)),
        effect_interrupts_close_with_their_source(state, event, drive_process_rule(state, event)),
        effect_results_settle_from_acceptance(state, event, drive_process_rule(state, event)),
        effect_cleanup_follows_broken_output(state, event, drive_process_rule(state, event)),
        effect_interruptions_follow_requests(state, event, drive_process_rule(state, event)),
        effect_actions_are_awaited(state, event, drive_process_rule(state, event)),
{
    reveal(drive_process_rule);
    if let DriveEvent::SupervisorStopped { supervisor_quiesced, group_quiescent, reason } = event {
        lemma_conclude(state, supervisor_quiesced, group_quiescent, reason);
    }
}

proof fn lemma_stopping_place(state: DriveState, event: DriveEvent)
    requires
        possible(state, event),
        state.phase is Stopping,
    ensures
        effect_drives_go_on(state, event, drive_process_rule(state, event)),
{
    reveal(drive_process_rule);
    if let DriveEvent::SupervisorStopped { supervisor_quiesced, group_quiescent, reason } = event {
        lemma_conclude(state, supervisor_quiesced, group_quiescent, reason);
    }
}

proof fn lemma_stopping(state: DriveState, event: DriveEvent)
    requires
        possible(state, event),
        state.phase is Stopping,
    ensures
        effects(state, event, drive_process_rule(state, event)),
{
    reveal(effects);
    lemma_stopping_cancellation(state, event);
    lemma_stopping_failure(state, event);
    lemma_stopping_parsing(state, event);
    lemma_stopping_force(state, event);
    lemma_stopping_rest(state, event);
    lemma_stopping_place(state, event);
}

proof fn lemma_emitting_quiescence(state: DriveState, event: DriveEvent)
    requires
        possible(state, event),
        state.phase is EmittingQuiescence,
    ensures
        effects(state, event, drive_process_rule(state, event)),
{
    reveal(effects);
    reveal(drive_process_rule);
    reveal(quiescence_emitted_rule);
}

proof fn lemma_ended(state: DriveState, event: DriveEvent)
    requires
        possible(state, event),
        state.phase is Ended,
    ensures
        effects(state, event, drive_process_rule(state, event)),
{
    reveal(effects);
    reveal(drive_process_rule);
}

proof fn lemma_selected_cancellation_accepted(state: DriveState, event: DriveEvent)
    requires
        possible(state, event),
        state.phase == DrivePhase::Selecting,
        event is CancellationAccepted,
    ensures
        effects(state, event, drive_process_rule(state, event)),
{
    reveal(effects);
    reveal(drive_process_rule);
    reveal(selected_rule);
    reveal(interrupting_rule);
    reveal(resume_rule);
    if let DriveEvent::CancellationAccepted { reason } = event {
        lemma_after_select(DriveState { cancelled: Some(reason), ..state });
    }
}

proof fn lemma_selected_interrupt_requested(state: DriveState, event: DriveEvent)
    requires
        possible(state, event),
        state.phase == DrivePhase::Selecting,
        event is InterruptRequested,
    ensures
        effects(state, event, drive_process_rule(state, event)),
{
    reveal(effects);
    reveal(drive_process_rule);
    reveal(selected_rule);
    reveal(interrupting_rule);
    reveal(resume_rule);
    if let DriveEvent::InterruptRequested { reason } = event {
        lemma_after_select(
            DriveState {
                cancelled: match reason {
                    Some(reason) => Some(reason),
                    None => state.cancelled,
                },
                ..state
            },
        );
    }
}

proof fn lemma_selected_interrupts_closed(state: DriveState, event: DriveEvent)
    requires
        possible(state, event),
        state.phase == DrivePhase::Selecting,
        event is InterruptsClosed,
    ensures
        effects(state, event, drive_process_rule(state, event)),
{
    reveal(effects);
    reveal(drive_process_rule);
    reveal(selected_rule);
    lemma_after_select(DriveState { interrupts_open: false, ..state });
}

proof fn lemma_selected_cleanup_elapsed(state: DriveState, event: DriveEvent)
    requires
        possible(state, event),
        state.phase == DrivePhase::Selecting,
        event is CleanupElapsed,
    ensures
        effects(state, event, drive_process_rule(state, event)),
{
    reveal(effects);
    reveal(drive_process_rule);
    reveal(selected_rule);
    lemma_after_select(DriveState { cleanup_armed: false, ..state });
}

proof fn lemma_selected_output_ended(state: DriveState, event: DriveEvent)
    requires
        possible(state, event),
        state.phase == DrivePhase::Selecting,
        event is OutputEnded,
    ensures
        effects(state, event, drive_process_rule(state, event)),
{
    reveal(effects);
    reveal(drive_process_rule);
    reveal(selected_rule);
    lemma_after_select(DriveState { output_closed: true, ..state });
}

proof fn lemma_selected_output_ignored(state: DriveState, event: DriveEvent)
    requires
        possible(state, event),
        state.phase == DrivePhase::Selecting,
        event is OutputIgnored,
    ensures
        effects(state, event, drive_process_rule(state, event)),
{
    reveal(effects);
    reveal(drive_process_rule);
    reveal(selected_rule);
    lemma_after_select(state);
}

proof fn lemma_selected_output_failed(state: DriveState, event: DriveEvent)
    requires
        possible(state, event),
        state.phase == DrivePhase::Selecting,
        event is OutputFailed,
    ensures
        effects(state, event, drive_process_rule(state, event)),
{
    reveal(effects);
    reveal(drive_process_rule);
    reveal(selected_rule);
    reveal(read_failed_rule);
    let closed = DriveState { output_closed: true, ..state };
    lemma_after_select(closed);
    if let DriveEvent::OutputFailed { phase_failure } = event {
        lemma_after_select(failing_rule(closed, phase_failure));
    }
}

proof fn lemma_selected_parsed(state: DriveState, event: DriveEvent)
    requires
        possible(state, event),
        state.phase == DrivePhase::Selecting,
        event is Parsed,
    ensures
        effects(state, event, drive_process_rule(state, event)),
{
    reveal(effects);
    reveal(drive_process_rule);
    reveal(selected_rule);
    reveal(parsed_rule);
    reveal(interrupting_rule);
    reveal(resume_rule);
    if let DriveEvent::Parsed { progress, reason } = event {
        lemma_progress_start(state, progress);
        if let Some(reason) = reason {
            lemma_progress_start(DriveState { cancelled: Some(reason), ..state }, progress);
        }
    }
}

proof fn lemma_selected_parse_failed(state: DriveState, event: DriveEvent)
    requires
        possible(state, event),
        state.phase == DrivePhase::Selecting,
        event is ParseFailed,
    ensures
        effects(state, event, drive_process_rule(state, event)),
{
    reveal(effects);
    reveal(drive_process_rule);
    reveal(selected_rule);
    reveal(parse_failed_rule);
    if let DriveEvent::ParseFailed { cause, .. } = event {
        lemma_error_emit(state, cause);
    }
}

proof fn lemma_selected_waited(state: DriveState, event: DriveEvent)
    requires
        possible(state, event),
        state.phase == DrivePhase::Selecting,
        event is Waited,
    ensures
        effects(state, event, drive_process_rule(state, event)),
{
    reveal(effects);
    reveal(drive_process_rule);
    reveal(selected_rule);
    reveal(waited_rule);
    if let DriveEvent::Waited { success, phase_failure } = event {
        match success {
            Some(success) => {
                lemma_after_select(DriveState { completion: Some(success), ..state });
            },
            None => {
                lemma_after_select(
                    DriveState {
                        wait_failed: true,
                        parser_enabled: false,
                        failure: if state.cancelled.is_none() && state.failure.is_none() {
                            Some(phase_failure)
                        } else {
                            state.failure
                        },
                        ..state
                    },
                );
            },
        }
    }
}

proof fn lemma_selected_settlement_elapsed(state: DriveState, event: DriveEvent)
    requires
        possible(state, event),
        state.phase == DrivePhase::Selecting,
        event is SettlementElapsed,
    ensures
        effects(state, event, drive_process_rule(state, event)),
{
    reveal(effects);
    reveal(drive_process_rule);
    reveal(selected_rule);
    lemma_after_select(
        failing_rule(
            DriveState { settling: false, ..state },
            AgentFailureCause::ResultSettlementFailed,
        ),
    );
}

proof fn lemma_selected_other(state: DriveState, event: DriveEvent)
    requires
        possible(state, event),
        state.phase == DrivePhase::Selecting,
        !(event is CancellationAccepted),
        !(event is InterruptRequested),
        !(event is InterruptsClosed),
        !(event is CleanupElapsed),
        !(event is OutputEnded),
        !(event is OutputIgnored),
        !(event is OutputFailed),
        !(event is Parsed),
        !(event is ParseFailed),
        !(event is Waited),
        !(event is SettlementElapsed),
    ensures
        effects(state, event, drive_process_rule(state, event)),
{
    reveal(effects);
    reveal(drive_process_rule);
    reveal(selected_rule);
    lemma_after_select(state);
}

proof fn lemma_effects(state: DriveState, event: DriveEvent)
    requires
        possible(state, event),
    ensures
        effects(state, event, drive_process_rule(state, event)),
{
    match state.phase {
        DrivePhase::Opening => lemma_opening(state, event),
        DrivePhase::Interrupting { .. } => lemma_interrupting(state, event),
        DrivePhase::ClosingAfterInterrupt { .. } => lemma_closing_after_interrupt(state, event),
        DrivePhase::Reporting { .. } => lemma_reporting(state, event),
        DrivePhase::Emitting { .. } => lemma_emitting(state, event),
        DrivePhase::Writing { .. } => lemma_writing(state, event),
        DrivePhase::Closing => lemma_closing(state, event),
        DrivePhase::ErrorReporting { .. } => lemma_error_reporting(state, event),
        DrivePhase::ErrorEmitting { .. } => lemma_error_emitting(state, event),
        DrivePhase::Flushing { .. } => lemma_flushing(state, event),
        DrivePhase::Taking => lemma_taking(state, event),
        DrivePhase::Validating => lemma_validating(state, event),
        DrivePhase::EmittingResult { .. } => lemma_emitting_result(state, event),
        DrivePhase::Applying => lemma_applying(state, event),
        DrivePhase::ProbingEnd => lemma_probing_end(state, event),
        DrivePhase::ProbingTop => lemma_probing_top(state, event),
        DrivePhase::Awaiting => lemma_awaiting(state, event),
        DrivePhase::ForceStopping => lemma_force_stopping(state, event),
        DrivePhase::Stopping => lemma_stopping(state, event),
        DrivePhase::EmittingQuiescence => lemma_emitting_quiescence(state, event),
        DrivePhase::Ended => lemma_ended(state, event),
        DrivePhase::Selecting => match event {
            DriveEvent::CancellationAccepted { .. } => {
                lemma_selected_cancellation_accepted(state, event);
            },
            DriveEvent::InterruptRequested { .. } => {
                lemma_selected_interrupt_requested(state, event);
            },
            DriveEvent::InterruptsClosed => lemma_selected_interrupts_closed(state, event),
            DriveEvent::CleanupElapsed => lemma_selected_cleanup_elapsed(state, event),
            DriveEvent::OutputEnded => lemma_selected_output_ended(state, event),
            DriveEvent::OutputIgnored => lemma_selected_output_ignored(state, event),
            DriveEvent::OutputFailed { .. } => lemma_selected_output_failed(state, event),
            DriveEvent::Parsed { .. } => lemma_selected_parsed(state, event),
            DriveEvent::ParseFailed { .. } => lemma_selected_parse_failed(state, event),
            DriveEvent::Waited { .. } => lemma_selected_waited(state, event),
            DriveEvent::SettlementElapsed => lemma_selected_settlement_elapsed(state, event),
            _ => lemma_selected_other(state, event),
        },
    }
}

/// A drive learns how the process exited only by waiting for it, and then remembers just
/// that.
pub proof fn law_completion_is_the_exit(state: DriveState, event: DriveEvent)
    requires
        possible(state, event),
    ensures
        drive_process_rule(state, event).state.completion == (match event {
            DriveEvent::Waited { success: Some(success), .. } => if state.phase
                == DrivePhase::Selecting || state.phase == DrivePhase::Awaiting {
                Some(success)
            } else {
                state.completion
            },
            _ => state.completion,
        }),
{
    lemma_effects(state, event);
    reveal(effects);
}

/// Output is closed once it has ended or cannot be read any more, and only then.
pub proof fn law_output_closes_at_its_end(state: DriveState, event: DriveEvent)
    requires
        possible(state, event),
    ensures
        drive_process_rule(state, event).state.output_closed <==> state.output_closed || (
        state.phase == DrivePhase::Selecting && (event is OutputEnded || event is OutputFailed)),
{
    lemma_effects(state, event);
    reveal(effects);
}

/// Waiting has failed once the exit of a running process cannot be known.
pub proof fn law_waiting_fails_without_an_exit(state: DriveState, event: DriveEvent)
    requires
        possible(state, event),
    ensures
        drive_process_rule(state, event).state.wait_failed <==> state.wait_failed || (state.phase
            == DrivePhase::Selecting && (event matches DriveEvent::Waited { success, .. }
            && success is None)),
{
    lemma_effects(state, event);
    reveal(effects);
}

/// A start is reported once reporting it succeeded.
pub proof fn law_starts_count_once_reported(state: DriveState, event: DriveEvent)
    requires
        possible(state, event),
    ensures
        drive_process_rule(state, event).state.start_reported <==> state.start_reported || ((
        state.phase is Reporting || state.phase is ErrorReporting) && event == (
        DriveEvent::Answered { succeeded: true })),
{
    lemma_effects(state, event);
    reveal(effects);
}

/// Interruptions are asked for until the supervisor will ask no more.
pub proof fn law_interrupts_close_with_their_source(state: DriveState, event: DriveEvent)
    requires
        possible(state, event),
    ensures
        drive_process_rule(state, event).state.interrupts_open <==> state.interrupts_open && !(
        state.phase == DrivePhase::Selecting && event is InterruptsClosed),
{
    lemma_effects(state, event);
    reveal(effects);
}

/// A result settles from when its acceptance was passed on until nothing of the process is
/// left or its time is over.
pub proof fn law_results_settle_from_acceptance(state: DriveState, event: DriveEvent)
    requires
        possible(state, event),
    ensures
        ({
            let turn = drive_process_rule(state, event);
            let accepted = state.phase == (DrivePhase::EmittingResult { accepted: true }) && !(
            event matches DriveEvent::Emitted { failure } && failure is Some);
            let over = state.phase == DrivePhase::Selecting && event is SettlementElapsed
                || state.phase == DrivePhase::ProbingEnd && event == (DriveEvent::Probed {
                quiescent: true,
            });
            &&& turn.arm_settlement <==> accepted
            &&& turn.state.settling <==> accepted || (state.settling && !over)
        }),
{
    lemma_effects(state, event);
    reveal(effects);
}

/// After broken output there is a time to stop, unless the run is cancelled; when it is
/// over, the process group is forced to stop.
pub proof fn law_cleanup_follows_broken_output(state: DriveState, event: DriveEvent)
    requires
        possible(state, event),
    ensures
        ({
            let turn = drive_process_rule(state, event);
            let armed = state.phase is Flushing && state.cancelled is None;
            let over = state.phase == DrivePhase::Selecting && event is CleanupElapsed;
            &&& turn.arm_cleanup <==> armed
            &&& turn.state.cleanup_armed <==> armed || (state.cleanup_armed && !over)
            &&& over ==> turn.force
        }),
{
    lemma_effects(state, event);
    reveal(effects);
}

/// A drive is cancelled for the reason that it is told: when a cancellation is accepted,
/// when an interruption is asked for or output is parsed after one was, when a result
/// meets one, or when one was accepted by the end. A reason that is known gives way only to
/// one that an interruption or a verdict brings.
pub proof fn law_cancellations_are_taken_as_told(state: DriveState, event: DriveEvent)
    requires
        possible(state, event),
    ensures
        drive_process_rule(state, event).state.cancelled == (match event {
            DriveEvent::CancellationAccepted { reason } => Some(reason),
            DriveEvent::InterruptRequested { reason: Some(reason) } => Some(reason),
            DriveEvent::Validated { verdict: ResultVerdict::Cancelled { reason } } => Some(reason),
            DriveEvent::Parsed { reason, .. } => if state.cancelled is None {
                reason
            } else {
                state.cancelled
            },
            DriveEvent::SupervisorStopped { reason, .. } => if state.cancelled is None {
                reason
            } else {
                state.cancelled
            },
            _ => state.cancelled,
        }),
{
    lemma_effects(state, event);
    reveal(effects);
}

/// A drive that has not interrupted the agent's turn does so when it is cancelled by an
/// event or asked to; nothing else interrupts it.
pub proof fn law_interruptions_follow_requests(state: DriveState, event: DriveEvent)
    requires
        possible(state, event),
    ensures
        ({
            let turn = drive_process_rule(state, event);
            let asked = event is CancellationAccepted || event is InterruptRequested || (
            event matches DriveEvent::Parsed { reason, .. } && reason is Some
                && state.cancelled is None);
            &&& turn.action == DriveAction::Interrupt <==> asked && !state.interrupt_started
            &&& turn.state.interrupt_started <==> state.interrupt_started || asked
        }),
{
    lemma_effects(state, event);
    reveal(effects);
}

/// A drive notes the failure that it is told of, or that of the part that broke, and no
/// other. Where a run is cancelled, broken writing, closing, parsing and waiting are no
/// failures of it.
pub proof fn law_failures_are_those_that_happened(state: DriveState, event: DriveEvent)
    requires
        possible(state, event),
    ensures
        drive_process_rule(state, event).state.failure == (match (state.phase, event) {
            (DrivePhase::Opening, DriveEvent::Wrote { failure: Some(cause) }) => Some(cause),
            (DrivePhase::Selecting, DriveEvent::OutputFailed { phase_failure }) => if
                state.parser_enabled {
                Some(phase_failure)
            } else {
                state.failure
            },
            (DrivePhase::Selecting, DriveEvent::Waited { success: None, phase_failure }) => if
                state.cancelled is None && state.failure is None {
                Some(phase_failure)
            } else {
                state.failure
            },
            (DrivePhase::Selecting, DriveEvent::SettlementElapsed) => Some(
                AgentFailureCause::ResultSettlementFailed,
            ),
            (DrivePhase::Selecting, DriveEvent::Parsed { progress, reason }) => if
                state.cancelled is None && reason is None && progress.start_acknowledged
                && state.start_reported {
                Some(start_failure())
            } else {
                state.failure
            },
            (
                DrivePhase::Interrupting { after: Some(progress) },
                DriveEvent::Answered { succeeded: true },
            ) => if state.cancelled is None && progress.start_acknowledged
                && state.start_reported {
                Some(start_failure())
            } else {
                state.failure
            },
            (DrivePhase::ClosingAfterInterrupt { after: Some(progress) }, _) => if
                state.cancelled is None && progress.start_acknowledged && state.start_reported {
                Some(start_failure())
            } else {
                state.failure
            },
            (DrivePhase::Reporting { .. }, DriveEvent::Answered { succeeded: false }) => Some(
                start_failure(),
            ),
            (DrivePhase::Emitting { .. }, DriveEvent::Emitted { failure: Some(cause) }) => Some(
                cause,
            ),
            (DrivePhase::Writing { .. }, DriveEvent::Wrote { failure: Some(cause) }) => if
                state.cancelled is None {
                Some(cause)
            } else {
                state.failure
            },
            (DrivePhase::Closing, DriveEvent::Answered { succeeded: false }) => if
                state.cancelled is None {
                Some(AgentFailureCause::HarnessProtocolFailed)
            } else {
                state.failure
            },
            (DrivePhase::Flushing { cause }, _) => if state.cancelled is None {
                Some(cause)
            } else {
                state.failure
            },
            (DrivePhase::Taking, DriveEvent::CandidateTaken { validator_present: false }) => Some(
                AgentFailureCause::HarnessProtocolFailed,
            ),
            (
                DrivePhase::Validating,
                DriveEvent::Validated { verdict: ResultVerdict::Fatal { cause } },
            ) => Some(cause),
            (DrivePhase::EmittingResult { .. }, DriveEvent::Emitted { failure: Some(cause) }) => {
                Some(cause)
            },
            (DrivePhase::Applying, DriveEvent::Wrote { failure: Some(cause) }) => Some(cause),
            _ => state.failure,
        }),
{
    lemma_effects(state, event);
    reveal(effects);
}

/// Output is parsed until something breaks: a failure is noted, the agent cannot be
/// interrupted, waiting fails, a result meets a cancellation, or output, writing or closing
/// breaks.
pub proof fn law_parsing_ends_when_something_breaks(state: DriveState, event: DriveEvent)
    requires
        possible(state, event),
    ensures
        ({
            let next = drive_process_rule(state, event).state;
            let broken = match (state.phase, event) {
                (DrivePhase::Interrupting { .. }, DriveEvent::Answered { succeeded }) => {
                    !succeeded
                },
                (DrivePhase::Selecting, DriveEvent::Waited { success, .. }) => success is None,
                (DrivePhase::Validating, DriveEvent::Validated { verdict }) => verdict
                    is Cancelled,
                (DrivePhase::Writing { .. }, DriveEvent::Wrote { failure }) => failure is Some,
                (DrivePhase::Closing, DriveEvent::Answered { succeeded }) => !succeeded,
                (DrivePhase::Flushing { .. }, _) => true,
                _ => false,
            };
            let noted = match (state.phase, event) {
                (DrivePhase::Selecting, DriveEvent::SettlementElapsed) => true,
                (DrivePhase::Selecting, DriveEvent::OutputFailed { .. }) => true,
                (DrivePhase::Opening, DriveEvent::Wrote { failure }) => failure is Some,
                (DrivePhase::Emitting { .. }, DriveEvent::Emitted { failure }) => failure is Some,
                (DrivePhase::EmittingResult { .. }, DriveEvent::Emitted { failure }) => {
                    failure is Some
                },
                (DrivePhase::Applying, DriveEvent::Wrote { failure }) => failure is Some,
                (DrivePhase::Taking, DriveEvent::CandidateTaken { validator_present }) => {
                    !validator_present
                },
                (DrivePhase::Validating, DriveEvent::Validated { verdict }) => verdict is Fatal,
                (DrivePhase::Reporting { .. }, DriveEvent::Answered { succeeded }) => !succeeded,
                _ => false,
            };
            let started_twice = match (state.phase, event) {
                (DrivePhase::Selecting, DriveEvent::Parsed { progress, reason }) => {
                    progress.start_acknowledged && reason is None
                },
                (DrivePhase::Interrupting { after: Some(progress) }, _) => {
                    progress.start_acknowledged
                },
                (DrivePhase::ClosingAfterInterrupt { after: Some(progress) }, _) => {
                    progress.start_acknowledged
                },
                _ => false,
            } && state.start_reported && state.cancelled is None;
            next.parser_enabled <==> state.parser_enabled && !broken && !noted && !started_twice
        }),
{
    lemma_effects(state, event);
    reveal(effects);
}

/// The process group is forced to stop where an uncancelled run breaks, where the exit
/// cannot be known, where a time is over, and where a result cannot be judged or passed on;
/// standard input is dropped where a run breaks before or after its output was parsed.
pub proof fn law_broken_runs_are_forced_to_stop(state: DriveState, event: DriveEvent)
    requires
        possible(state, event),
    ensures
        ({
            let turn = drive_process_rule(state, event);
            let dropped = match (state.phase, event) {
                (DrivePhase::Opening, DriveEvent::Wrote { failure }) => failure is Some,
                (DrivePhase::Selecting, DriveEvent::SettlementElapsed) => true,
                (DrivePhase::Taking, DriveEvent::CandidateTaken { validator_present }) => {
                    !validator_present
                },
                (DrivePhase::Validating, DriveEvent::Validated { verdict }) => verdict is Fatal,
                (DrivePhase::EmittingResult { .. }, DriveEvent::Emitted { failure }) => {
                    failure is Some
                },
                (DrivePhase::Applying, DriveEvent::Wrote { failure }) => failure is Some,
                _ => false,
            };
            let forced = match (state.phase, event) {
                (DrivePhase::Selecting, DriveEvent::CleanupElapsed) => true,
                (DrivePhase::Selecting, DriveEvent::OutputFailed { .. }) => state.parser_enabled,
                (DrivePhase::Selecting, DriveEvent::Waited { success, .. }) => success is None,
                (DrivePhase::Selecting, DriveEvent::Parsed { progress, reason }) => {
                    progress.start_acknowledged && state.start_reported && state.cancelled is None
                        && reason is None
                },
                (DrivePhase::Interrupting { after }, DriveEvent::Answered { succeeded }) => {
                    succeeded && state.start_reported && state.cancelled is None && (
                    after matches Some(progress) && progress.start_acknowledged)
                },
                (DrivePhase::ClosingAfterInterrupt { after }, _) => {
                    state.start_reported && state.cancelled is None && (after matches Some(
                        progress,
                    ) && progress.start_acknowledged)
                },
                (DrivePhase::Reporting { .. }, DriveEvent::Answered { succeeded }) => !succeeded,
                (DrivePhase::Emitting { .. }, DriveEvent::Emitted { failure }) => failure is Some,
                (DrivePhase::Writing { .. }, DriveEvent::Wrote { failure }) => failure is Some
                    && state.cancelled is None,
                (DrivePhase::Closing, DriveEvent::Answered { succeeded }) => !succeeded
                    && state.cancelled is None,
                _ => false,
            };
            &&& turn.force <==> dropped || forced
            &&& turn.drop_input <==> dropped || (event matches DriveEvent::Validated { verdict }
                && verdict is Cancelled)
        }),
{
    lemma_effects(state, event);
    reveal(effects);
}

/// What a drive does next is what it then waits for.
pub proof fn law_actions_are_awaited(state: DriveState, event: DriveEvent)
    requires
        possible(state, event),
    ensures
        matching(
            drive_process_rule(state, event).state.phase,
            drive_process_rule(state, event).action,
        ),
{
    lemma_effects(state, event);
    reveal(effects);
}

/// After an event a drive goes on where what it remembers calls for it.
pub proof fn law_drives_go_on(state: DriveState, event: DriveEvent)
    requires
        possible(state, event),
    ensures
        ({
            let next = drive_process_rule(state, event).state;
            next.phase == next_place(state, event, next)
        }),
{
    lemma_effects(state, event);
    reveal(effects);
}

/// When the supervisor has stopped, a run that was cancelled by then ends as cancelled, for
/// the reason that came first; one that failed ends with its failure; one of which something
/// is left, or whose exit cannot be known, has broken the protocol. Any other is not over
/// before its end was told.
pub proof fn law_ends_are_decided_in_order(
    state: DriveState,
    supervisor_quiesced: bool,
    group_quiescent: bool,
    reason: Option<CancellationReason>,
)
    requires
        state.phase == DrivePhase::Stopping,
    ensures
        ({
            let action = drive_process_rule(
                state,
                DriveEvent::SupervisorStopped { supervisor_quiesced, group_quiescent, reason },
            ).action;
            let left = state.wait_failed || !supervisor_quiesced || !group_quiescent
                || !state.output_closed;
            &&& state.cancelled matches Some(first) ==> action == (DriveAction::Finish {
                outcome: DriveOutcome::Cancelled { reason: first },
            })
            &&& state.cancelled is None ==> (reason matches Some(late) ==> action == (
            DriveAction::Finish { outcome: DriveOutcome::Cancelled { reason: late } }))
            &&& state.cancelled is None && reason is None ==> (state.failure matches Some(cause)
                ==> action == (DriveAction::Finish { outcome: DriveOutcome::Failed { cause } }))
            &&& state.cancelled is None && reason is None && state.failure is None && left
                ==> action == (DriveAction::Finish {
                outcome: DriveOutcome::Failed { cause: AgentFailureCause::HarnessProtocolFailed },
            })
            &&& state.cancelled is None && reason is None && state.failure is None && !left
                ==> action == DriveAction::EmitQuiescence
        }),
{
    reveal(drive_process_rule);
    reveal(conclude_rule);
}

/// A run whose end was told is reported with the exit of its process: as successful exactly
/// if the process was. Where the end could not be told, or the exit is not known, it has
/// failed.
pub proof fn law_clean_runs_are_reported_with_their_exit(
    state: DriveState,
    delivered: bool,
    phase_failure: AgentFailureCause,
)
    requires
        state.phase == DrivePhase::EmittingQuiescence,
    ensures
        ({
            let turn = drive_process_rule(
                state,
                DriveEvent::QuiescenceEmitted { delivered, phase_failure },
            );
            &&& turn.state.phase == DrivePhase::Ended
            &&& !delivered ==> turn.action == (DriveAction::Finish {
                outcome: DriveOutcome::Failed { cause: AgentFailureCause::HarnessProtocolFailed },
            })
            &&& delivered ==> (state.completion matches Some(success) ==> turn.action == (
            DriveAction::Finish { outcome: DriveOutcome::Reported { success } }))
            &&& delivered && state.completion is None ==> turn.action == (DriveAction::Finish {
                outcome: DriveOutcome::Failed { cause: phase_failure },
            })
        }),
{
    reveal(drive_process_rule);
    reveal(quiescence_emitted_rule);
}

/// Whether each of some events can come where the drive stands then.
#[verifier::opaque]
pub open spec fn all_possible(events: Seq<DriveEvent>) -> bool {
    forall|i: int|
        0 <= i < events.len() ==> possible(turn_at(events, i).state, #[trigger] events[i])
}

proof fn lemma_possible(events: Seq<DriveEvent>, index: int)
    requires
        all_possible(events),
        0 <= index < events.len(),
    ensures
        possible(turn_at(events, index).state, events[index]),
{
    reveal(all_possible);
}

/// Whether an event tells that the process exited that way.
pub open spec fn exited(event: DriveEvent, success: bool) -> bool {
    event matches DriveEvent::Waited { success: told, .. } && told == Some(success)
}

/// What a drive knows of the exit after some events: that of the one event that told it.
spec fn exit_known(events: Seq<DriveEvent>, count: int, state: DriveState) -> bool {
    &&& state.phase == DrivePhase::Awaiting ==> state.completion is None
    &&& match state.completion {
        None => forall|i: int|
            0 <= i < count ==> !exited(#[trigger] events[i], true) && !exited(events[i], false),
        Some(success) => (exists|i: int| 0 <= i < count && #[trigger] exited(events[i], success))
            && forall|i: int| 0 <= i < count ==> !exited(#[trigger] events[i], !success),
    }
}

proof fn lemma_exit_known(events: Seq<DriveEvent>, count: int)
    requires
        all_possible(events),
        0 <= count <= events.len(),
    ensures
        exit_known(events, count, turn_at(events, count).state),
    decreases count,
{
    if count == 0 {
        assert(events.take(0).len() == 0);
    } else {
        lemma_exit_known(events, count - 1);
        lemma_next_turn(events, count - 1);
        let before = turn_at(events, count - 1).state;
        let event = events[count - 1];
        lemma_possible(events, count - 1);
        law_completion_is_the_exit(before, event);
        law_drives_go_on(before, event);
        let after = turn_at(events, count).state;
        if let DriveEvent::Waited { success: Some(success), .. } = event {
            assert(before.completion is None);
            assert(exited(events[count - 1], success));
        } else if let Some(success) = before.completion {
            let i = choose|i: int|
                0 <= i < count - 1 && #[trigger] exited(events[i], success);
            assert(exited(events[i], success));
        }
    }
}

proof fn lemma_reporting_phase(state: DriveState, event: DriveEvent, outcome: DriveOutcome)
    requires
        possible(state, event),
        drive_process_rule(state, event).action == (DriveAction::Finish { outcome }),
    ensures
        state.phase == DrivePhase::Stopping || state.phase == DrivePhase::EmittingQuiescence,
{
    law_actions_are_awaited(state, event);
    law_drives_go_on(state, event);
    let next = drive_process_rule(state, event).state;
    assert(next.phase == DrivePhase::Ended);
}

proof fn lemma_reporting_turn(state: DriveState, event: DriveEvent, success: bool)
    requires
        possible(state, event),
        drive_process_rule(state, event).action == (DriveAction::Finish {
            outcome: DriveOutcome::Reported { success },
        }),
    ensures
        state.phase == DrivePhase::EmittingQuiescence,
        event is QuiescenceEmitted,
        state.completion == Some(success),
        drive_process_rule(state, event).state.cancelled == state.cancelled,
        drive_process_rule(state, event).state.failure == state.failure,
{
    lemma_reporting_phase(state, event, DriveOutcome::Reported { success });
    if let DriveEvent::SupervisorStopped { supervisor_quiesced, group_quiescent, reason } = event {
        law_ends_are_decided_in_order(state, supervisor_quiesced, group_quiescent, reason);
    }
    if let DriveEvent::QuiescenceEmitted { delivered, phase_failure } = event {
        law_clean_runs_are_reported_with_their_exit(state, delivered, phase_failure);
        reveal(drive_process_rule);
        reveal(quiescence_emitted_rule);
    }
}

/// A drive that ends with what the agent reported has seen its process exit, once, and
/// reports just that exit; and it was neither cancelled nor failed.
pub proof fn law_reports_tell_the_exit(events: Seq<DriveEvent>, count: int, success: bool)
    requires
        all_possible(events),
        0 <= count <= events.len(),
        turn_at(events, count).action == (DriveAction::Finish {
            outcome: DriveOutcome::Reported { success },
        }),
    ensures
        exists|i: int| 0 <= i < count && #[trigger] exited(events[i], success),
        forall|i: int| 0 <= i < count ==> !exited(#[trigger] events[i], !success),
        turn_at(events, count).state.cancelled is None,
        turn_at(events, count).state.failure is None,
{
    if count == 0 {
        assert(events.take(0).len() == 0);
    } else {
        lemma_next_turn(events, count - 1);
        let before = turn_at(events, count - 1).state;
        let event = events[count - 1];
        lemma_possible(events, count - 1);
        lemma_reporting_turn(before, event, success);
        lemma_exit_known(events, count - 1);
        lemma_quiet(events, count - 1);
        assert(!exited(event, true) && !exited(event, false));
        let i = choose|i: int| 0 <= i < count - 1 && #[trigger] exited(events[i], success);
        assert(exited(events[i], success));
    }
}

/// A drive whose end is being told was neither cancelled nor failed.
proof fn lemma_quiet(events: Seq<DriveEvent>, count: int)
    requires
        all_possible(events),
        0 <= count <= events.len(),
    ensures
        ({
            let state = turn_at(events, count).state;
            state.phase == DrivePhase::EmittingQuiescence ==> state.cancelled is None
                && state.failure is None
        }),
{
    if count == 0 {
        assert(events.take(0).len() == 0);
    } else {
        lemma_next_turn(events, count - 1);
        let before = turn_at(events, count - 1).state;
        let event = events[count - 1];
        lemma_possible(events, count - 1);
        law_drives_go_on(before, event);
        law_failures_are_those_that_happened(before, event);
    }
}

/// A drive begins by writing its first frames, with all still to come: output is open and
/// parsed, nothing has exited, nothing was reported, asked for, failed or cancelled.
pub proof fn law_drives_begin_with_nothing_done()
    ensures
        ({
            let first = turn_after(Seq::empty());
            &&& first.action == DriveAction::WriteFrames
            &&& first.state.phase == DrivePhase::Opening
            &&& !first.force && !first.drop_input && !first.arm_cleanup && !first.arm_settlement
            &&& !first.state.output_closed && first.state.completion is None
                && !first.state.wait_failed && first.state.parser_enabled
            &&& !first.state.start_reported && !first.state.interrupt_started
                && first.state.interrupts_open
            &&& first.state.failure is None && first.state.cancelled is None
            &&& !first.state.cleanup_armed && !first.state.settling
        }),
{
}

/// While a drive waits it listens for what may still come: a cancellation until it is
/// cancelled, interruptions until one was made or none will be asked for, output until it
/// has ended, the exit until it is known, and each time that is running.
pub proof fn law_waiting_drives_listen_for_what_may_come(state: DriveState, event: DriveEvent)
    requires
        state.phase == DrivePhase::Selecting,
    ensures
        event is CancellationAccepted ==> (possible(state, event) <==> state.cancelled is None),
        event is InterruptRequested || event is InterruptsClosed ==> (possible(state, event)
            <==> state.interrupts_open && !state.interrupt_started),
        event is CleanupElapsed ==> (possible(state, event) <==> state.cleanup_armed),
        event is OutputEnded || event is OutputIgnored || event is OutputFailed ==> (possible(
            state,
            event,
        ) <==> !state.output_closed),
        event is Parsed || event is ParseFailed ==> (possible(state, event)
            <==> !state.output_closed && state.parser_enabled),
        event is Waited ==> (possible(state, event) <==> state.completion is None
            && !state.wait_failed),
        event is SettlementElapsed ==> (possible(state, event) <==> state.settling),
        event is ProbeElapsed ==> (possible(state, event) <==> state.settling
            && state.output_closed && state.completion is Some),
{
}

} // verus!

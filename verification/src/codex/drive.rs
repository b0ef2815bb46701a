//! Driving the process of an agent: what is done with its output, its result, its
//! completion and a cancellation, one event at a time.

use vstd::prelude::*;

use crate::agent::{AgentFailureCause, AgentHarnessSetupStage};
use crate::evidence::CancellationReason;

verus! {

/// What parsing output came to.
#[derive(Clone, Copy, Debug, PartialEq, Eq, Structural)]
pub struct ParserProgress {
    pub start_acknowledged: bool,
    pub close_standard_input: bool,
}

/// The verdict on a result candidate.
#[derive(Clone, Copy, Debug, PartialEq, Eq, Structural)]
pub enum ResultVerdict {
    Cancelled { reason: CancellationReason },
    Fatal { cause: AgentFailureCause },
    Rejected,
    Valid,
}

/// How a drive ended.
#[derive(Clone, Copy, Debug, PartialEq, Eq, Structural)]
pub enum DriveOutcome {
    /// The run was cancelled.
    Cancelled { reason: CancellationReason },
    /// The run failed.
    Failed { cause: AgentFailureCause },
    /// What the agent reported decides, given how its process exited.
    Reported { success: bool },
}

/// Where a drive stands.
#[derive(Clone, Copy, Debug, PartialEq, Eq, Structural)]
pub enum DrivePhase {
    Opening,
    Selecting,
    Interrupting { after: Option<ParserProgress> },
    ClosingAfterInterrupt { after: Option<ParserProgress> },
    Reporting { progress: ParserProgress },
    Emitting { progress: ParserProgress },
    Writing { progress: ParserProgress },
    Closing,
    ErrorReporting { cause: AgentFailureCause },
    ErrorEmitting { cause: AgentFailureCause },
    Flushing { cause: AgentFailureCause },
    Taking,
    Validating,
    EmittingResult { accepted: bool },
    Applying,
    ProbingEnd,
    ProbingTop,
    Awaiting,
    ForceStopping,
    Stopping,
    EmittingQuiescence,
    Ended,
}

/// What a drive remembers.
#[derive(Clone, Copy, Debug, PartialEq, Eq, Structural)]
pub struct DriveState {
    pub phase: DrivePhase,
    pub output_closed: bool,
    pub completion: Option<bool>,
    pub wait_failed: bool,
    pub parser_enabled: bool,
    pub start_reported: bool,
    pub failure: Option<AgentFailureCause>,
    pub cancelled: Option<CancellationReason>,
    pub interrupt_started: bool,
    pub interrupts_open: bool,
    pub cleanup_armed: bool,
    pub settling: bool,
}

/// What comes up in a drive, or what doing its last action came to.
#[derive(Clone, Copy, Debug, PartialEq, Eq, Structural)]
pub enum DriveEvent {
    /// Frames were written, or could not be.
    Wrote { failure: Option<AgentFailureCause> },
    /// A cancellation was accepted.
    CancellationAccepted { reason: CancellationReason },
    /// The supervisor asks for an interruption; the cancellation accepted by then.
    InterruptRequested { reason: Option<CancellationReason> },
    /// The supervisor will not ask for an interruption any more.
    InterruptsClosed,
    /// The time to stop after a failure is over.
    CleanupElapsed,
    /// There is no more output.
    OutputEnded,
    /// Output came that is not parsed, or reading was interrupted.
    OutputIgnored,
    /// Output cannot be read any more.
    OutputFailed { phase_failure: AgentFailureCause },
    /// Output was parsed; the cancellation accepted by then.
    Parsed { progress: ParserProgress, reason: Option<CancellationReason> },
    /// Output could not be parsed.
    ParseFailed { cause: AgentFailureCause, start_acknowledged: bool },
    /// The process exited, or that cannot be known.
    Waited { success: Option<bool>, phase_failure: AgentFailureCause },
    /// The time to settle an accepted result is over.
    SettlementElapsed,
    /// It is time to look at the process group again.
    ProbeElapsed,
    /// An interruption, a report or a closing succeeded or not.
    Answered { succeeded: bool },
    /// Observations were passed on, or could not be.
    Emitted { failure: Option<AgentFailureCause> },
    /// What remained was written and standard input closed, as far as possible.
    Flushed,
    /// There is no result candidate.
    NoCandidate,
    /// There is a result candidate, and perhaps a validator for it.
    CandidateTaken { validator_present: bool },
    /// A result candidate was judged.
    Validated { verdict: ResultVerdict },
    /// Whether nothing of the process group runs any more.
    Probed { quiescent: bool },
    /// The process was forced to stop, as far as possible.
    ForceStopped,
    /// The supervisor has stopped; the cancellation accepted by then.
    SupervisorStopped {
        supervisor_quiesced: bool,
        group_quiescent: bool,
        reason: Option<CancellationReason>,
    },
    /// Observers were told that nothing of the agent runs any more, or could not.
    QuiescenceEmitted { delivered: bool, phase_failure: AgentFailureCause },
}

/// What a drive does next.
#[derive(Clone, Copy, Debug, PartialEq, Eq, Structural)]
pub enum DriveAction {
    WriteFrames,
    Select,
    Interrupt,
    CloseInput,
    ReportStart,
    Emit,
    FlushAndClose,
    TakeCandidate,
    Validate,
    EmitVerdict { accepted: bool },
    ApplyVerdict,
    ProbeQuiescence,
    AwaitProcess,
    ForceStop,
    StopSupervisor,
    EmitQuiescence,
    Finish { outcome: DriveOutcome },
    Rest,
}

/// Where a drive stands after an event, what it does next, and what it does
/// before that: force the process group to stop, drop standard input, and start
/// the time to stop or to settle.
#[derive(Clone, Copy, Debug, PartialEq, Eq, Structural)]
pub struct DriveTurn {
    pub state: DriveState,
    pub action: DriveAction,
    pub force: bool,
    pub drop_input: bool,
    pub arm_cleanup: bool,
    pub arm_settlement: bool,
}

/// The failure of a setup at that stage.
pub open spec fn setup_failure_cause(stage: AgentHarnessSetupStage) -> AgentFailureCause {
    AgentFailureCause::HarnessSetupFailed { stage }
}

/// The failure of a setup at that stage.
pub fn setup_failure(stage: AgentHarnessSetupStage) -> (cause: AgentFailureCause)
    ensures
        cause == setup_failure_cause(stage),
{
    AgentFailureCause::HarnessSetupFailed { stage }
}

/// The outcome of a run whose setup failed at that stage.
pub fn setup_failed(stage: AgentHarnessSetupStage) -> (outcome: DriveOutcome)
    ensures
        outcome == (DriveOutcome::Failed { cause: setup_failure_cause(stage) }),
{
    DriveOutcome::Failed { cause: setup_failure(stage) }
}

/// The failure of a start that could not be reported.
pub open spec fn unreported_start() -> AgentFailureCause {
    setup_failure_cause(AgentHarnessSetupStage::StartAcknowledgement)
}

/// The failure of a start that could not be reported.
#[verifier::when_used_as_spec(unreported_start)]
pub fn start_acknowledgement_failure() -> (cause: AgentFailureCause)
    ensures
        cause == unreported_start(),
{
    setup_failure(AgentHarnessSetupStage::StartAcknowledgement)
}

/// A drive that has to write its first frames.
pub open spec fn opening_state() -> DriveState {
    DriveState {
        phase: DrivePhase::Opening,
        output_closed: false,
        completion: None,
        wait_failed: false,
        parser_enabled: true,
        start_reported: false,
        failure: None,
        cancelled: None,
        interrupt_started: false,
        interrupts_open: true,
        cleanup_armed: false,
        settling: false,
    }
}

/// Begins a drive: its first frames are written.
pub fn begin_drive() -> (begun: DriveTurn)
    ensures
        begun == turn_rule(opening_state(), DriveAction::WriteFrames),
{
    let state = DriveState {
        phase: DrivePhase::Opening,
        output_closed: false,
        completion: None,
        wait_failed: false,
        parser_enabled: true,
        start_reported: false,
        failure: None,
        cancelled: None,
        interrupt_started: false,
        interrupts_open: true,
        cleanup_armed: false,
        settling: false,
    };
    turn(state, DriveAction::WriteFrames)
}

/// Does `action` next.
pub open spec fn turn_rule(state: DriveState, action: DriveAction) -> DriveTurn {
    DriveTurn {
        state,
        action,
        force: false,
        drop_input: false,
        arm_cleanup: false,
        arm_settlement: false,
    }
}

/// Does `action` next.
pub fn turn(state: DriveState, action: DriveAction) -> (decided: DriveTurn)
    ensures
        decided == turn_rule(state, action),
{
    DriveTurn {
        state,
        action,
        force: false,
        drop_input: false,
        arm_cleanup: false,
        arm_settlement: false,
    }
}

/// The turn, with the process group forced to stop first.
pub open spec fn forced_rule(turn: DriveTurn) -> DriveTurn {
    DriveTurn { force: true, ..turn }
}

/// The turn, with the process group forced to stop first.
pub fn forced(turn: DriveTurn) -> (decided: DriveTurn)
    ensures
        decided == forced_rule(turn),
{
    DriveTurn { force: true, ..turn }
}

/// The turn, with standard input dropped and the process group forced to stop
/// first.
pub open spec fn dropped_rule(turn: DriveTurn) -> DriveTurn {
    DriveTurn { force: true, drop_input: true, ..turn }
}

/// The turn, with standard input dropped and the process group forced to stop
/// first.
pub fn dropped(turn: DriveTurn) -> (decided: DriveTurn)
    ensures
        decided == dropped_rule(turn),
{
    DriveTurn { force: true, drop_input: true, ..turn }
}

/// The failure noted, and nothing more parsed.
pub open spec fn failing_rule(state: DriveState, cause: AgentFailureCause) -> DriveState {
    DriveState { failure: Some(cause), parser_enabled: false, ..state }
}

/// The failure noted, and nothing more parsed.
pub fn failing(state: DriveState, cause: AgentFailureCause) -> (decided: DriveState)
    ensures
        decided == failing_rule(state, cause),
{
    DriveState { failure: Some(cause), parser_enabled: false, ..state }
}

/// The state at another point of the drive.
pub open spec fn at_rule(state: DriveState, phase: DrivePhase) -> DriveState {
    DriveState { phase, ..state }
}

/// The state at another point of the drive.
pub fn at(state: DriveState, phase: DrivePhase) -> (decided: DriveState)
    ensures
        decided == at_rule(state, phase),
{
    DriveState { phase, ..state }
}

/// Goes on while output, completion or settlement is outstanding.
#[verifier::opaque]
pub open spec fn loop_top_rule(state: DriveState) -> DriveTurn {
    if !state.output_closed || (state.completion.is_none() && !state.wait_failed) {
        turn_rule(at_rule(state, DrivePhase::Selecting), DriveAction::Select)
    } else if state.settling {
        turn_rule(at_rule(state, DrivePhase::ProbingTop), DriveAction::ProbeQuiescence)
    } else {
        wind_up_rule(state)
    }
}

/// Goes on while output, completion or settlement is outstanding.
pub fn loop_top(state: DriveState) -> (decided: DriveTurn)
    ensures
        decided == loop_top_rule(state),
{
    proof {
        reveal(loop_top_rule);
    }
    if !state.output_closed || (state.completion.is_none() && !state.wait_failed) {
        turn(at(state, DrivePhase::Selecting), DriveAction::Select)
    } else if state.settling {
        turn(at(state, DrivePhase::ProbingTop), DriveAction::ProbeQuiescence)
    } else {
        wind_up(state)
    }
}

/// Ends settlement once nothing of the process is left.
#[verifier::opaque]
pub open spec fn loop_end_rule(state: DriveState) -> DriveTurn {
    if state.settling && state.output_closed && state.completion.is_some() {
        turn_rule(at_rule(state, DrivePhase::ProbingEnd), DriveAction::ProbeQuiescence)
    } else {
        loop_top_rule(state)
    }
}

/// Ends settlement once nothing of the process is left.
pub fn loop_end(state: DriveState) -> (decided: DriveTurn)
    ensures
        decided == loop_end_rule(state),
{
    proof {
        reveal(loop_end_rule);
    }
    if state.settling && state.output_closed && state.completion.is_some() {
        turn(at(state, DrivePhase::ProbingEnd), DriveAction::ProbeQuiescence)
    } else {
        loop_top(state)
    }
}

/// Looks for a result candidate, as long as output is parsed.
#[verifier::opaque]
pub open spec fn after_select_rule(state: DriveState) -> DriveTurn {
    if state.parser_enabled {
        turn_rule(at_rule(state, DrivePhase::Taking), DriveAction::TakeCandidate)
    } else {
        loop_end_rule(state)
    }
}

/// Looks for a result candidate, as long as output is parsed.
pub fn after_select(state: DriveState) -> (decided: DriveTurn)
    ensures
        decided == after_select_rule(state),
{
    proof {
        reveal(after_select_rule);
    }
    if state.parser_enabled {
        turn(at(state, DrivePhase::Taking), DriveAction::TakeCandidate)
    } else {
        loop_end(state)
    }
}

/// Waits for the process, if its completion is not known yet.
#[verifier::opaque]
pub open spec fn wind_up_rule(state: DriveState) -> DriveTurn {
    if state.completion.is_none() {
        turn_rule(at_rule(state, DrivePhase::Awaiting), DriveAction::AwaitProcess)
    } else {
        turn_rule(at_rule(state, DrivePhase::Stopping), DriveAction::StopSupervisor)
    }
}

/// Waits for the process, if its completion is not known yet.
pub fn wind_up(state: DriveState) -> (decided: DriveTurn)
    ensures
        decided == wind_up_rule(state),
{
    proof {
        reveal(wind_up_rule);
    }
    if state.completion.is_none() {
        turn(at(state, DrivePhase::Awaiting), DriveAction::AwaitProcess)
    } else {
        turn(at(state, DrivePhase::Stopping), DriveAction::StopSupervisor)
    }
}

/// Asks the agent to interrupt its turn, once.
#[verifier::opaque]
pub open spec fn interrupting_rule(state: DriveState, after: Option<ParserProgress>) -> DriveTurn {
    if state.interrupt_started {
        resume_rule(state, after)
    } else {
        turn_rule(
            at_rule(
                DriveState { interrupt_started: true, ..state },
                DrivePhase::Interrupting { after },
            ),
            DriveAction::Interrupt,
        )
    }
}

/// Asks the agent to interrupt its turn, once.
pub fn interrupting(state: DriveState, after: Option<ParserProgress>) -> (decided: DriveTurn)
    ensures
        decided == interrupting_rule(state, after),
{
    proof {
        reveal(interrupting_rule);
    }
    if state.interrupt_started {
        resume(state, after)
    } else {
        turn(
            at(
                DriveState { interrupt_started: true, ..state },
                DrivePhase::Interrupting { after },
            ),
            DriveAction::Interrupt,
        )
    }
}

/// Goes on where an interruption came in between.
#[verifier::opaque]
pub open spec fn resume_rule(state: DriveState, after: Option<ParserProgress>) -> DriveTurn {
    match after {
        Some(progress) => progress_start_rule(state, progress),
        None => after_select_rule(state),
    }
}

/// Goes on where an interruption came in between.
pub fn resume(state: DriveState, after: Option<ParserProgress>) -> (decided: DriveTurn)
    ensures
        decided == resume_rule(state, after),
{
    proof {
        reveal(resume_rule);
    }
    match after {
        Some(progress) => progress_start(state, progress),
        None => after_select(state),
    }
}

/// Reports the start that the agent acknowledged. A second one is a failure.
#[verifier::opaque]
pub open spec fn progress_start_rule(state: DriveState, progress: ParserProgress) -> DriveTurn {
    if state.cancelled.is_none() && progress.start_acknowledged {
        if state.start_reported {
            forced_rule(
                progress_emit_rule(failing_rule(state, start_acknowledgement_failure()), progress),
            )
        } else {
            turn_rule(at_rule(state, DrivePhase::Reporting { progress }), DriveAction::ReportStart)
        }
    } else {
        progress_emit_rule(state, progress)
    }
}

/// Reports the start that the agent acknowledged. A second one is a failure.
pub fn progress_start(state: DriveState, progress: ParserProgress) -> (decided: DriveTurn)
    ensures
        decided == progress_start_rule(state, progress),
{
    proof {
        reveal(progress_start_rule);
    }
    if state.cancelled.is_none() && progress.start_acknowledged {
        if state.start_reported {
            forced(
                progress_emit(failing(state, start_acknowledgement_failure()), progress),
            )
        } else {
            turn(at(state, DrivePhase::Reporting { progress }), DriveAction::ReportStart)
        }
    } else {
        progress_emit(state, progress)
    }
}

/// Passes observations on, unless the run is cancelled.
#[verifier::opaque]
pub open spec fn progress_emit_rule(state: DriveState, progress: ParserProgress) -> DriveTurn {
    if state.parser_enabled && state.cancelled.is_none() {
        turn_rule(at_rule(state, DrivePhase::Emitting { progress }), DriveAction::Emit)
    } else {
        progress_write_rule(state, progress)
    }
}

/// Passes observations on, unless the run is cancelled.
pub fn progress_emit(state: DriveState, progress: ParserProgress) -> (decided: DriveTurn)
    ensures
        decided == progress_emit_rule(state, progress),
{
    proof {
        reveal(progress_emit_rule);
    }
    if state.parser_enabled && state.cancelled.is_none() {
        turn(at(state, DrivePhase::Emitting { progress }), DriveAction::Emit)
    } else {
        progress_write(state, progress)
    }
}

/// Writes what the agent is to be told.
#[verifier::opaque]
pub open spec fn progress_write_rule(state: DriveState, progress: ParserProgress) -> DriveTurn {
    if state.parser_enabled {
        turn_rule(at_rule(state, DrivePhase::Writing { progress }), DriveAction::WriteFrames)
    } else {
        progress_close_rule(state, progress)
    }
}

/// Writes what the agent is to be told.
pub fn progress_write(state: DriveState, progress: ParserProgress) -> (decided: DriveTurn)
    ensures
        decided == progress_write_rule(state, progress),
{
    proof {
        reveal(progress_write_rule);
    }
    if state.parser_enabled {
        turn(at(state, DrivePhase::Writing { progress }), DriveAction::WriteFrames)
    } else {
        progress_close(state, progress)
    }
}

/// Closes standard input, if the protocol has come to that.
#[verifier::opaque]
pub open spec fn progress_close_rule(state: DriveState, progress: ParserProgress) -> DriveTurn {
    if progress.close_standard_input {
        turn_rule(at_rule(state, DrivePhase::Closing), DriveAction::CloseInput)
    } else {
        after_select_rule(state)
    }
}

/// Closes standard input, if the protocol has come to that.
pub fn progress_close(state: DriveState, progress: ParserProgress) -> (decided: DriveTurn)
    ensures
        decided == progress_close_rule(state, progress),
{
    proof {
        reveal(progress_close_rule);
    }
    if progress.close_standard_input {
        turn(at(state, DrivePhase::Closing), DriveAction::CloseInput)
    } else {
        after_select(state)
    }
}

/// Takes up what parsing output came to. A cancellation that came meanwhile
/// interrupts the agent first.
#[verifier::opaque]
pub open spec fn parsed_rule(
    state: DriveState,
    progress: ParserProgress,
    reason: Option<CancellationReason>,
) -> DriveTurn {
    match (state.cancelled, reason) {
        (None, Some(reason)) => interrupting_rule(
            DriveState { cancelled: Some(reason), ..state },
            Some(progress),
        ),
        _ => progress_start_rule(state, progress),
    }
}

/// Takes up what parsing output came to. A cancellation that came meanwhile
/// interrupts the agent first.
pub fn parsed(
    state: DriveState,
    progress: ParserProgress,
    reason: Option<CancellationReason>,
) -> (decided: DriveTurn)
    ensures
        decided == parsed_rule(state, progress, reason),
{
    proof {
        reveal(parsed_rule);
    }
    match (state.cancelled, reason) {
        (None, Some(reason)) => interrupting(
            DriveState { cancelled: Some(reason), ..state },
            Some(progress),
        ),
        _ => progress_start(state, progress),
    }
}

/// Takes up output that could not be parsed.
#[verifier::opaque]
pub open spec fn parse_failed_rule(
    state: DriveState,
    cause: AgentFailureCause,
    start_acknowledged: bool,
) -> DriveTurn {
    if state.cancelled.is_none() && !state.start_reported && start_acknowledged {
        turn_rule(at_rule(state, DrivePhase::ErrorReporting { cause }), DriveAction::ReportStart)
    } else {
        error_emit_rule(state, cause)
    }
}

/// Takes up output that could not be parsed.
pub fn parse_failed(
    state: DriveState,
    cause: AgentFailureCause,
    start_acknowledged: bool,
) -> (decided: DriveTurn)
    ensures
        decided == parse_failed_rule(state, cause, start_acknowledged),
{
    proof {
        reveal(parse_failed_rule);
    }
    if state.cancelled.is_none() && !state.start_reported && start_acknowledged {
        turn(at(state, DrivePhase::ErrorReporting { cause }), DriveAction::ReportStart)
    } else {
        error_emit(state, cause)
    }
}

/// Passes on what was observed before output could not be parsed.
#[verifier::opaque]
pub open spec fn error_emit_rule(state: DriveState, cause: AgentFailureCause) -> DriveTurn {
    if state.cancelled.is_none() {
        turn_rule(at_rule(state, DrivePhase::ErrorEmitting { cause }), DriveAction::Emit)
    } else {
        turn_rule(at_rule(state, DrivePhase::Flushing { cause }), DriveAction::FlushAndClose)
    }
}

/// Passes on what was observed before output could not be parsed.
pub fn error_emit(state: DriveState, cause: AgentFailureCause) -> (decided: DriveTurn)
    ensures
        decided == error_emit_rule(state, cause),
{
    proof {
        reveal(error_emit_rule);
    }
    if state.cancelled.is_none() {
        turn(at(state, DrivePhase::ErrorEmitting { cause }), DriveAction::Emit)
    } else {
        turn(at(state, DrivePhase::Flushing { cause }), DriveAction::FlushAndClose)
    }
}

/// Gives the agent time to stop after output could not be parsed.
#[verifier::opaque]
pub open spec fn flushed_rule(state: DriveState, cause: AgentFailureCause) -> DriveTurn {
    if state.cancelled.is_none() {
        DriveTurn {
            arm_cleanup: true,
            ..after_select_rule(
                DriveState { cleanup_armed: true, ..failing_rule(state, cause) },
            )
        }
    } else {
        after_select_rule(DriveState { parser_enabled: false, ..state })
    }
}

/// Gives the agent time to stop after output could not be parsed.
pub fn flushed(state: DriveState, cause: AgentFailureCause) -> (decided: DriveTurn)
    ensures
        decided == flushed_rule(state, cause),
{
    proof {
        reveal(flushed_rule);
    }
    if state.cancelled.is_none() {
        DriveTurn {
            arm_cleanup: true,
            ..after_select(
                DriveState { cleanup_armed: true, ..failing(state, cause) },
            )
        }
    } else {
        after_select(DriveState { parser_enabled: false, ..state })
    }
}

/// Takes up the completion of the process, or that it cannot be known.
#[verifier::opaque]
pub open spec fn waited_rule(
    state: DriveState,
    success: Option<bool>,
    phase_failure: AgentFailureCause,
) -> DriveTurn {
    match success {
        Some(success) => after_select_rule(DriveState { completion: Some(success), ..state }),
        None => forced_rule(
            after_select_rule(
                DriveState {
                    wait_failed: true,
                    parser_enabled: false,
                    failure: if state.cancelled.is_none() && state.failure.is_none() {
                        Some(phase_failure)
                    } else {
                        state.failure
                    },
                    ..state
                },
            ),
        ),
    }
}

/// Takes up the completion of the process, or that it cannot be known.
pub fn waited(
    state: DriveState,
    success: Option<bool>,
    phase_failure: AgentFailureCause,
) -> (decided: DriveTurn)
    ensures
        decided == waited_rule(state, success, phase_failure),
{
    proof {
        reveal(waited_rule);
    }
    match success {
        Some(success) => after_select(DriveState { completion: Some(success), ..state }),
        None => forced(
            after_select(
                DriveState {
                    wait_failed: true,
                    parser_enabled: false,
                    failure: if state.cancelled.is_none() && state.failure.is_none() {
                        Some(phase_failure)
                    } else {
                        state.failure
                    },
                    ..state
                },
            ),
        ),
    }
}

/// Takes up that no more output can be read.
#[verifier::opaque]
pub open spec fn read_failed_rule(
    state: DriveState,
    phase_failure: AgentFailureCause,
) -> DriveTurn {
    let closed = DriveState { output_closed: true, ..state };
    if state.parser_enabled {
        forced_rule(after_select_rule(failing_rule(closed, phase_failure)))
    } else {
        after_select_rule(closed)
    }
}

/// Takes up that no more output can be read.
pub fn read_failed(state: DriveState, phase_failure: AgentFailureCause) -> (decided: DriveTurn)
    ensures
        decided == read_failed_rule(state, phase_failure),
{
    proof {
        reveal(read_failed_rule);
    }
    let closed = DriveState { output_closed: true, ..state };
    if state.parser_enabled {
        forced(after_select(failing(closed, phase_failure)))
    } else {
        after_select(closed)
    }
}

/// Takes up the verdict on a result candidate.
#[verifier::opaque]
pub open spec fn validated_rule(state: DriveState, verdict: ResultVerdict) -> DriveTurn {
    match verdict {
        ResultVerdict::Cancelled { reason } => DriveTurn {
            drop_input: true,
            ..loop_end_rule(
                DriveState { cancelled: Some(reason), parser_enabled: false, ..state },
            )
        },
        ResultVerdict::Fatal { cause } => dropped_rule(loop_end_rule(failing_rule(state, cause))),
        ResultVerdict::Rejected => turn_rule(
            at_rule(state, DrivePhase::EmittingResult { accepted: false }),
            DriveAction::EmitVerdict { accepted: false },
        ),
        ResultVerdict::Valid => turn_rule(
            at_rule(state, DrivePhase::EmittingResult { accepted: true }),
            DriveAction::EmitVerdict { accepted: true },
        ),
    }
}

/// Takes up the verdict on a result candidate.
pub fn validated(state: DriveState, verdict: ResultVerdict) -> (decided: DriveTurn)
    ensures
        decided == validated_rule(state, verdict),
{
    proof {
        reveal(validated_rule);
    }
    match verdict {
        ResultVerdict::Cancelled { reason } => DriveTurn {
            drop_input: true,
            ..loop_end(
                DriveState { cancelled: Some(reason), parser_enabled: false, ..state },
            )
        },
        ResultVerdict::Fatal { cause } => dropped(loop_end(failing(state, cause))),
        ResultVerdict::Rejected => turn(
            at(state, DrivePhase::EmittingResult { accepted: false }),
            DriveAction::EmitVerdict { accepted: false },
        ),
        ResultVerdict::Valid => turn(
            at(state, DrivePhase::EmittingResult { accepted: true }),
            DriveAction::EmitVerdict { accepted: true },
        ),
    }
}

/// Tells the agent the verdict; an accepted result starts settlement.
#[verifier::opaque]
pub open spec fn result_emitted_rule(state: DriveState, accepted: bool) -> DriveTurn {
    if accepted {
        DriveTurn {
            arm_settlement: true,
            ..turn_rule(
                at_rule(DriveState { settling: true, ..state }, DrivePhase::Applying),
                DriveAction::ApplyVerdict,
            )
        }
    } else {
        turn_rule(at_rule(state, DrivePhase::Applying), DriveAction::ApplyVerdict)
    }
}

/// Tells the agent the verdict; an accepted result starts settlement.
pub fn result_emitted(state: DriveState, accepted: bool) -> (decided: DriveTurn)
    ensures
        decided == result_emitted_rule(state, accepted),
{
    proof {
        reveal(result_emitted_rule);
    }
    if accepted {
        DriveTurn {
            arm_settlement: true,
            ..turn(
                at(DriveState { settling: true, ..state }, DrivePhase::Applying),
                DriveAction::ApplyVerdict,
            )
        }
    } else {
        turn(at(state, DrivePhase::Applying), DriveAction::ApplyVerdict)
    }
}

/// Settles the outcome: a cancellation before a failure, a failure before what is
/// left of the process, and that before what the agent reported.
#[verifier::opaque]
pub open spec fn conclude_rule(
    state: DriveState,
    supervisor_quiesced: bool,
    group_quiescent: bool,
    reason: Option<CancellationReason>,
) -> DriveTurn {
    let cancelled = match state.cancelled {
        Some(reason) => Some(reason),
        None => reason,
    };
    let settled = at_rule(DriveState { cancelled, ..state }, DrivePhase::Ended);
    match (cancelled, state.failure) {
        (Some(reason), _) => turn_rule(
            settled,
            DriveAction::Finish { outcome: DriveOutcome::Cancelled { reason } },
        ),
        (None, Some(cause)) => turn_rule(
            settled,
            DriveAction::Finish { outcome: DriveOutcome::Failed { cause } },
        ),
        (None, None) => if state.wait_failed || !supervisor_quiesced || !group_quiescent
            || !state.output_closed {
            turn_rule(
                settled,
                DriveAction::Finish {
                    outcome: DriveOutcome::Failed {
                        cause: AgentFailureCause::HarnessProtocolFailed,
                    },
                },
            )
        } else {
            turn_rule(
                at_rule(settled, DrivePhase::EmittingQuiescence),
                DriveAction::EmitQuiescence,
            )
        },
    }
}

/// Settles the outcome: a cancellation before a failure, a failure before what is
/// left of the process, and that before what the agent reported.
pub fn conclude(
    state: DriveState,
    supervisor_quiesced: bool,
    group_quiescent: bool,
    reason: Option<CancellationReason>,
) -> (decided: DriveTurn)
    ensures
        decided == conclude_rule(state, supervisor_quiesced, group_quiescent, reason),
{
    proof {
        reveal(conclude_rule);
    }
    let cancelled = match state.cancelled {
        Some(reason) => Some(reason),
        None => reason,
    };
    let settled = at(DriveState { cancelled, ..state }, DrivePhase::Ended);
    match (cancelled, state.failure) {
        (Some(reason), _) => turn(
            settled,
            DriveAction::Finish { outcome: DriveOutcome::Cancelled { reason } },
        ),
        (None, Some(cause)) => turn(
            settled,
            DriveAction::Finish { outcome: DriveOutcome::Failed { cause } },
        ),
        (None, None) => if state.wait_failed || !supervisor_quiesced || !group_quiescent
            || !state.output_closed {
            turn(
                settled,
                DriveAction::Finish {
                    outcome: DriveOutcome::Failed {
                        cause: AgentFailureCause::HarnessProtocolFailed,
                    },
                },
            )
        } else {
            turn(
                at(settled, DrivePhase::EmittingQuiescence),
                DriveAction::EmitQuiescence,
            )
        },
    }
}

/// Settles the outcome of a run that neither failed nor was cancelled.
#[verifier::opaque]
pub open spec fn quiescence_emitted_rule(
    state: DriveState,
    delivered: bool,
    phase_failure: AgentFailureCause,
) -> DriveTurn {
    let settled = at_rule(state, DrivePhase::Ended);
    if !delivered {
        turn_rule(
            settled,
            DriveAction::Finish {
                outcome: DriveOutcome::Failed { cause: AgentFailureCause::HarnessProtocolFailed },
            },
        )
    } else {
        match state.completion {
            Some(success) => turn_rule(
                settled,
                DriveAction::Finish { outcome: DriveOutcome::Reported { success } },
            ),
            None => turn_rule(
                settled,
                DriveAction::Finish { outcome: DriveOutcome::Failed { cause: phase_failure } },
            ),
        }
    }
}

/// Settles the outcome of a run that neither failed nor was cancelled.
pub fn quiescence_emitted(
    state: DriveState,
    delivered: bool,
    phase_failure: AgentFailureCause,
) -> (decided: DriveTurn)
    ensures
        decided == quiescence_emitted_rule(state, delivered, phase_failure),
{
    proof {
        reveal(quiescence_emitted_rule);
    }
    let settled = at(state, DrivePhase::Ended);
    if !delivered {
        turn(
            settled,
            DriveAction::Finish {
                outcome: DriveOutcome::Failed { cause: AgentFailureCause::HarnessProtocolFailed },
            },
        )
    } else {
        match state.completion {
            Some(success) => turn(
                settled,
                DriveAction::Finish { outcome: DriveOutcome::Reported { success } },
            ),
            None => turn(
                settled,
                DriveAction::Finish { outcome: DriveOutcome::Failed { cause: phase_failure } },
            ),
        }
    }
}

/// Takes up what came while the drive was waiting.
#[verifier::opaque]
pub open spec fn selected_rule(state: DriveState, event: DriveEvent) -> DriveTurn {
    match event {
        DriveEvent::CancellationAccepted { reason } => interrupting_rule(
            DriveState { cancelled: Some(reason), ..state },
            None,
        ),
        DriveEvent::InterruptRequested { reason } => interrupting_rule(
            DriveState {
                cancelled: match reason {
                    Some(reason) => Some(reason),
                    None => state.cancelled,
                },
                ..state
            },
            None,
        ),
        DriveEvent::InterruptsClosed => after_select_rule(
            DriveState { interrupts_open: false, ..state },
        ),
        DriveEvent::CleanupElapsed => forced_rule(
            after_select_rule(DriveState { cleanup_armed: false, ..state }),
        ),
        DriveEvent::OutputEnded => after_select_rule(DriveState { output_closed: true, ..state }),
        DriveEvent::OutputIgnored => after_select_rule(state),
        DriveEvent::OutputFailed { phase_failure } => read_failed_rule(state, phase_failure),
        DriveEvent::Parsed { progress, reason } => parsed_rule(state, progress, reason),
        DriveEvent::ParseFailed { cause, start_acknowledged } => parse_failed_rule(
            state,
            cause,
            start_acknowledged,
        ),
        DriveEvent::Waited { success, phase_failure } => waited_rule(state, success, phase_failure),
        DriveEvent::SettlementElapsed => dropped_rule(
            after_select_rule(
                failing_rule(
                    DriveState { settling: false, ..state },
                    AgentFailureCause::ResultSettlementFailed,
                ),
            ),
        ),
        _ => after_select_rule(state),
    }
}

/// Takes up what came while the drive was waiting.
pub fn selected(state: DriveState, event: DriveEvent) -> (decided: DriveTurn)
    ensures
        decided == selected_rule(state, event),
{
    proof {
        reveal(selected_rule);
    }
    match event {
        DriveEvent::CancellationAccepted { reason } => interrupting(
            DriveState { cancelled: Some(reason), ..state },
            None,
        ),
        DriveEvent::InterruptRequested { reason } => interrupting(
            DriveState {
                cancelled: match reason {
                    Some(reason) => Some(reason),
                    None => state.cancelled,
                },
                ..state
            },
            None,
        ),
        DriveEvent::InterruptsClosed => after_select(
            DriveState { interrupts_open: false, ..state },
        ),
        DriveEvent::CleanupElapsed => forced(
            after_select(DriveState { cleanup_armed: false, ..state }),
        ),
        DriveEvent::OutputEnded => after_select(DriveState { output_closed: true, ..state }),
        DriveEvent::OutputIgnored => after_select(state),
        DriveEvent::OutputFailed { phase_failure } => read_failed(state, phase_failure),
        DriveEvent::Parsed { progress, reason } => parsed(state, progress, reason),
        DriveEvent::ParseFailed { cause, start_acknowledged } => parse_failed(
            state,
            cause,
            start_acknowledged,
        ),
        DriveEvent::Waited { success, phase_failure } => waited(state, success, phase_failure),
        DriveEvent::SettlementElapsed => dropped(
            after_select(
                failing(
                    DriveState { settling: false, ..state },
                    AgentFailureCause::ResultSettlementFailed,
                ),
            ),
        ),
        _ => after_select(state),
    }
}

/// Takes up an event: where the drive stands then, and what it does next.
#[verifier::opaque]
pub open spec fn drive_process_rule(state: DriveState, event: DriveEvent) -> DriveTurn {
    match state.phase {
        DrivePhase::Opening => match event {
            DriveEvent::Wrote { failure: Some(cause) } => dropped_rule(
                loop_top_rule(failing_rule(state, cause)),
            ),
            _ => loop_top_rule(state),
        },
        DrivePhase::Selecting => selected_rule(state, event),
        DrivePhase::Interrupting { after } => match event {
            DriveEvent::Answered { succeeded: false } => turn_rule(
                at_rule(
                    DriveState { parser_enabled: false, ..state },
                    DrivePhase::ClosingAfterInterrupt { after },
                ),
                DriveAction::CloseInput,
            ),
            _ => resume_rule(state, after),
        },
        DrivePhase::ClosingAfterInterrupt { after } => resume_rule(state, after),
        DrivePhase::Reporting { progress } => match event {
            DriveEvent::Answered { succeeded: true } => progress_emit_rule(
                DriveState { start_reported: true, ..state },
                progress,
            ),
            _ => forced_rule(
                progress_emit_rule(failing_rule(state, start_acknowledgement_failure()), progress),
            ),
        },
        DrivePhase::Emitting { progress } => match event {
            DriveEvent::Emitted { failure: Some(cause) } => forced_rule(
                progress_write_rule(failing_rule(state, cause), progress),
            ),
            _ => progress_write_rule(state, progress),
        },
        DrivePhase::Writing { progress } => match event {
            DriveEvent::Wrote { failure: Some(cause) } => if state.cancelled.is_none() {
                forced_rule(progress_close_rule(failing_rule(state, cause), progress))
            } else {
                progress_close_rule(DriveState { parser_enabled: false, ..state }, progress)
            },
            _ => progress_close_rule(state, progress),
        },
        DrivePhase::Closing => match event {
            DriveEvent::Answered { succeeded: false } => if state.cancelled.is_none() {
                forced_rule(
                    after_select_rule(
                        failing_rule(state, AgentFailureCause::HarnessProtocolFailed),
                    ),
                )
            } else {
                after_select_rule(DriveState { parser_enabled: false, ..state })
            },
            _ => after_select_rule(state),
        },
        DrivePhase::ErrorReporting { cause } => match event {
            DriveEvent::Answered { succeeded: true } => error_emit_rule(
                DriveState { start_reported: true, ..state },
                cause,
            ),
            _ => error_emit_rule(state, start_acknowledgement_failure()),
        },
        DrivePhase::ErrorEmitting { cause } => match event {
            DriveEvent::Emitted { failure: Some(phase_failure) } => turn_rule(
                at_rule(state, DrivePhase::Flushing { cause: phase_failure }),
                DriveAction::FlushAndClose,
            ),
            _ => turn_rule(
                at_rule(state, DrivePhase::Flushing { cause }),
                DriveAction::FlushAndClose,
            ),
        },
        DrivePhase::Flushing { cause } => flushed_rule(state, cause),
        DrivePhase::Taking => match event {
            DriveEvent::CandidateTaken { validator_present } => if validator_present {
                turn_rule(at_rule(state, DrivePhase::Validating), DriveAction::Validate)
            } else {
                dropped_rule(
                    loop_top_rule(failing_rule(state, AgentFailureCause::HarnessProtocolFailed)),
                )
            },
            _ => loop_end_rule(state),
        },
        DrivePhase::Validating => match event {
            DriveEvent::Validated { verdict } => validated_rule(state, verdict),
            _ => loop_end_rule(state),
        },
        DrivePhase::EmittingResult { accepted } => match event {
            DriveEvent::Emitted { failure: Some(cause) } => dropped_rule(
                loop_end_rule(failing_rule(state, cause)),
            ),
            _ => result_emitted_rule(state, accepted),
        },
        DrivePhase::Applying => match event {
            DriveEvent::Wrote { failure: Some(cause) } => dropped_rule(
                loop_end_rule(failing_rule(state, cause)),
            ),
            _ => loop_end_rule(state),
        },
        DrivePhase::ProbingEnd => match event {
            DriveEvent::Probed { quiescent: true } => loop_top_rule(
                DriveState { settling: false, ..state },
            ),
            _ => loop_top_rule(state),
        },
        DrivePhase::ProbingTop => match event {
            DriveEvent::Probed { quiescent: true } => wind_up_rule(state),
            _ => turn_rule(at_rule(state, DrivePhase::Selecting), DriveAction::Select),
        },
        DrivePhase::Awaiting => match event {
            DriveEvent::Waited { success: Some(success), phase_failure: _ } => turn_rule(
                at_rule(
                    DriveState { completion: Some(success), ..state },
                    DrivePhase::Stopping,
                ),
                DriveAction::StopSupervisor,
            ),
            _ => turn_rule(at_rule(state, DrivePhase::ForceStopping), DriveAction::ForceStop),
        },
        DrivePhase::ForceStopping => turn_rule(
            at_rule(state, DrivePhase::Stopping),
            DriveAction::StopSupervisor,
        ),
        DrivePhase::Stopping => match event {
            DriveEvent::SupervisorStopped {
                supervisor_quiesced,
                group_quiescent,
                reason,
            } => conclude_rule(state, supervisor_quiesced, group_quiescent, reason),
            _ => conclude_rule(state, false, false, None),
        },
        DrivePhase::EmittingQuiescence => match event {
            DriveEvent::QuiescenceEmitted {
                delivered,
                phase_failure,
            } => quiescence_emitted_rule(state, delivered, phase_failure),
            _ => quiescence_emitted_rule(
                state,
                false,
                AgentFailureCause::HarnessProtocolFailed,
            ),
        },
        DrivePhase::Ended => turn_rule(state, DriveAction::Rest),
    }
}

/// Takes up an event: where the drive stands then, and what it does next.
pub fn drive_process(state: DriveState, event: DriveEvent) -> (decided: DriveTurn)
    ensures
        decided == drive_process_rule(state, event),
{
    proof {
        reveal(drive_process_rule);
    }
    match state.phase {
        DrivePhase::Opening => match event {
            DriveEvent::Wrote { failure: Some(cause) } => dropped(
                loop_top(failing(state, cause)),
            ),
            _ => loop_top(state),
        },
        DrivePhase::Selecting => selected(state, event),
        DrivePhase::Interrupting { after } => match event {
            DriveEvent::Answered { succeeded: false } => turn(
                at(
                    DriveState { parser_enabled: false, ..state },
                    DrivePhase::ClosingAfterInterrupt { after },
                ),
                DriveAction::CloseInput,
            ),
            _ => resume(state, after),
        },
        DrivePhase::ClosingAfterInterrupt { after } => resume(state, after),
        DrivePhase::Reporting { progress } => match event {
            DriveEvent::Answered { succeeded: true } => progress_emit(
                DriveState { start_reported: true, ..state },
                progress,
            ),
            _ => forced(
                progress_emit(failing(state, start_acknowledgement_failure()), progress),
            ),
        },
        DrivePhase::Emitting { progress } => match event {
            DriveEvent::Emitted { failure: Some(cause) } => forced(
                progress_write(failing(state, cause), progress),
            ),
            _ => progress_write(state, progress),
        },
        DrivePhase::Writing { progress } => match event {
            DriveEvent::Wrote { failure: Some(cause) } => if state.cancelled.is_none() {
                forced(progress_close(failing(state, cause), progress))
            } else {
                progress_close(DriveState { parser_enabled: false, ..state }, progress)
            },
            _ => progress_close(state, progress),
        },
        DrivePhase::Closing => match event {
            DriveEvent::Answered { succeeded: false } => if state.cancelled.is_none() {
                forced(
                    after_select(
                        failing(state, AgentFailureCause::HarnessProtocolFailed),
                    ),
                )
            } else {
                after_select(DriveState { parser_enabled: false, ..state })
            },
            _ => after_select(state),
        },
        DrivePhase::ErrorReporting { cause } => match event {
            DriveEvent::Answered { succeeded: true } => error_emit(
                DriveState { start_reported: true, ..state },
                cause,
            ),
            _ => error_emit(state, start_acknowledgement_failure()),
        },
        DrivePhase::ErrorEmitting { cause } => match event {
            DriveEvent::Emitted { failure: Some(phase_failure) } => turn(
                at(state, DrivePhase::Flushing { cause: phase_failure }),
                DriveAction::FlushAndClose,
            ),
            _ => turn(
                at(state, DrivePhase::Flushing { cause }),
                DriveAction::FlushAndClose,
            ),
        },
        DrivePhase::Flushing { cause } => flushed(state, cause),
        DrivePhase::Taking => match event {
            DriveEvent::CandidateTaken { validator_present } => if validator_present {
                turn(at(state, DrivePhase::Validating), DriveAction::Validate)
            } else {
                dropped(
                    loop_top(failing(state, AgentFailureCause::HarnessProtocolFailed)),
                )
            },
            _ => loop_end(state),
        },
        DrivePhase::Validating => match event {
            DriveEvent::Validated { verdict } => validated(state, verdict),
            _ => loop_end(state),
        },
        DrivePhase::EmittingResult { accepted } => match event {
            DriveEvent::Emitted { failure: Some(cause) } => dropped(
                loop_end(failing(state, cause)),
            ),
            _ => result_emitted(state, accepted),
        },
        DrivePhase::Applying => match event {
            DriveEvent::Wrote { failure: Some(cause) } => dropped(
                loop_end(failing(state, cause)),
            ),
            _ => loop_end(state),
        },
        DrivePhase::ProbingEnd => match event {
            DriveEvent::Probed { quiescent: true } => loop_top(
                DriveState { settling: false, ..state },
            ),
            _ => loop_top(state),
        },
        DrivePhase::ProbingTop => match event {
            DriveEvent::Probed { quiescent: true } => wind_up(state),
            _ => turn(at(state, DrivePhase::Selecting), DriveAction::Select),
        },
        DrivePhase::Awaiting => match event {
            DriveEvent::Waited { success: Some(success), phase_failure: _ } => turn(
                at(
                    DriveState { completion: Some(success), ..state },
                    DrivePhase::Stopping,
                ),
                DriveAction::StopSupervisor,
            ),
            _ => turn(at(state, DrivePhase::ForceStopping), DriveAction::ForceStop),
        },
        DrivePhase::ForceStopping => turn(
            at(state, DrivePhase::Stopping),
            DriveAction::StopSupervisor,
        ),
        DrivePhase::Stopping => match event {
            DriveEvent::SupervisorStopped {
                supervisor_quiesced,
                group_quiescent,
                reason,
            } => conclude(state, supervisor_quiesced, group_quiescent, reason),
            _ => conclude(state, false, false, None),
        },
        DrivePhase::EmittingQuiescence => match event {
            DriveEvent::QuiescenceEmitted {
                delivered,
                phase_failure,
            } => quiescence_emitted(state, delivered, phase_failure),
            _ => quiescence_emitted(
                state,
                false,
                AgentFailureCause::HarnessProtocolFailed,
            ),
        },
        DrivePhase::Ended => turn(state, DriveAction::Rest),
    }
}

/// Whether the drive listens for an event while it waits.
pub open spec fn listens_for(state: DriveState, event: DriveEvent) -> bool {
    match event {
        DriveEvent::CancellationAccepted { .. } => state.cancelled is None,
        DriveEvent::InterruptRequested { .. } => state.interrupts_open && !state.interrupt_started,
        DriveEvent::InterruptsClosed => state.interrupts_open && !state.interrupt_started,
        DriveEvent::CleanupElapsed => state.cleanup_armed,
        DriveEvent::OutputEnded => !state.output_closed,
        DriveEvent::OutputIgnored => !state.output_closed,
        DriveEvent::OutputFailed { .. } => !state.output_closed,
        DriveEvent::Parsed { .. } => !state.output_closed && state.parser_enabled,
        DriveEvent::ParseFailed { .. } => !state.output_closed && state.parser_enabled,
        DriveEvent::Waited { .. } => state.completion is None && !state.wait_failed,
        DriveEvent::SettlementElapsed => state.settling,
        DriveEvent::ProbeElapsed => state.settling && state.output_closed
            && state.completion is Some,
        _ => false,
    }
}

/// Whether an event can come where the drive stands.
pub open spec fn possible(state: DriveState, event: DriveEvent) -> bool {
    match state.phase {
        DrivePhase::Opening => event is Wrote,
        DrivePhase::Selecting => listens_for(state, event),
        DrivePhase::Interrupting { .. } => event is Answered,
        DrivePhase::ClosingAfterInterrupt { .. } => event is Answered,
        DrivePhase::Reporting { .. } => event is Answered,
        DrivePhase::Emitting { .. } => event is Emitted,
        DrivePhase::Writing { .. } => event is Wrote,
        DrivePhase::Closing => event is Answered,
        DrivePhase::ErrorReporting { .. } => event is Answered,
        DrivePhase::ErrorEmitting { .. } => event is Emitted,
        DrivePhase::Flushing { .. } => event is Flushed,
        DrivePhase::Taking => event is NoCandidate || event is CandidateTaken,
        DrivePhase::Validating => event is Validated,
        DrivePhase::EmittingResult { .. } => event is Emitted,
        DrivePhase::Applying => event is Wrote,
        DrivePhase::ProbingEnd => event is Probed,
        DrivePhase::ProbingTop => event is Probed,
        DrivePhase::Awaiting => event is Waited,
        DrivePhase::ForceStopping => event is ForceStopped,
        DrivePhase::Stopping => event is SupervisorStopped,
        DrivePhase::EmittingQuiescence => event is QuiescenceEmitted,
        DrivePhase::Ended => false,
    }
}

/// What holds of every turn that a drive takes.
pub(crate) open(crate) spec fn sound_turn(before: DriveState, turn: DriveTurn) -> bool {
    let after = turn.state;
    &&& before.cancelled is Some ==> after.cancelled is Some
    &&& before.failure is Some ==> after.failure is Some
    &&& before.output_closed ==> after.output_closed
    &&& before.wait_failed ==> after.wait_failed
    &&& before.completion is Some ==> after.completion is Some
    &&& before.start_reported ==> after.start_reported
    &&& before.interrupt_started ==> after.interrupt_started
    &&& !before.parser_enabled ==> !after.parser_enabled
    &&& turn.action == DriveAction::Interrupt ==> !before.interrupt_started
        && after.interrupt_started
    &&& turn.action == DriveAction::ReportStart || turn.action == DriveAction::Emit
        ==> after.cancelled is None
    &&& turn.action == DriveAction::ReportStart ==> !after.start_reported && (
    after.phase is Reporting || after.phase is ErrorReporting)
    &&& turn.action == DriveAction::Interrupt ==> after.phase is Interrupting
    &&& after.phase == DrivePhase::EmittingQuiescence ==> after.cancelled is None
    &&& turn.action matches DriveAction::Finish { outcome } ==> after.phase == DrivePhase::Ended
        && (after.cancelled is Some ==> outcome is Cancelled || before.phase
        == DrivePhase::EmittingQuiescence)
    &&& turn.action == DriveAction::AwaitProcess || turn.action == DriveAction::StopSupervisor
        ==> after.output_closed && (after.completion is Some || after.wait_failed)
        && !after.settling
}

broadcast proof fn lemma_loop_top_sound(state: DriveState)
    ensures
        sound_turn(state, #[trigger] loop_top_rule(state)),
{
    reveal(loop_top_rule);
    reveal(wind_up_rule);
}

broadcast proof fn lemma_loop_end_sound(state: DriveState)
    ensures
        sound_turn(state, #[trigger] loop_end_rule(state)),
{
    broadcast use {lemma_loop_top_sound};

    reveal(loop_end_rule);
}

broadcast proof fn lemma_after_select_sound(state: DriveState)
    ensures
        sound_turn(state, #[trigger] after_select_rule(state)),
{
    broadcast use {lemma_loop_end_sound};

    reveal(after_select_rule);
}

broadcast proof fn lemma_interrupting_sound(state: DriveState, after: Option<ParserProgress>)
    ensures
        sound_turn(state, #[trigger] interrupting_rule(state, after)),
{
    broadcast use {lemma_resume_sound};

    reveal(interrupting_rule);
}

broadcast proof fn lemma_resume_sound(state: DriveState, after: Option<ParserProgress>)
    ensures
        sound_turn(state, #[trigger] resume_rule(state, after)),
{
    broadcast use {lemma_progress_start_sound, lemma_after_select_sound};

    reveal(resume_rule);
}

broadcast proof fn lemma_progress_start_sound(state: DriveState, progress: ParserProgress)
    ensures
        sound_turn(state, #[trigger] progress_start_rule(state, progress)),
{
    broadcast use {lemma_progress_emit_sound};

    reveal(progress_start_rule);
}

pub(crate) broadcast proof fn lemma_progress_emit_sound(state: DriveState, progress: ParserProgress)
    ensures
        sound_turn(state, #[trigger] progress_emit_rule(state, progress)),
{
    broadcast use {lemma_progress_write_sound};

    reveal(progress_emit_rule);
}

broadcast proof fn lemma_progress_write_sound(state: DriveState, progress: ParserProgress)
    ensures
        sound_turn(state, #[trigger] progress_write_rule(state, progress)),
{
    broadcast use {lemma_progress_close_sound};

    reveal(progress_write_rule);
}

broadcast proof fn lemma_progress_close_sound(state: DriveState, progress: ParserProgress)
    ensures
        sound_turn(state, #[trigger] progress_close_rule(state, progress)),
{
    broadcast use {lemma_after_select_sound};

    reveal(progress_close_rule);
}

broadcast proof fn lemma_parsed_sound(
    state: DriveState,
    progress: ParserProgress,
    reason: Option<CancellationReason>,
)
    ensures
        sound_turn(state, #[trigger] parsed_rule(state, progress, reason)),
{
    broadcast use {lemma_interrupting_sound, lemma_progress_start_sound};

    reveal(parsed_rule);
}

broadcast proof fn lemma_parse_failed_sound(
    state: DriveState,
    cause: AgentFailureCause,
    start_acknowledged: bool,
)
    ensures
        sound_turn(state, #[trigger] parse_failed_rule(state, cause, start_acknowledged)),
{
    broadcast use {lemma_error_emit_sound};

    reveal(parse_failed_rule);
}

pub(crate) broadcast proof fn lemma_error_emit_sound(state: DriveState, cause: AgentFailureCause)
    ensures
        sound_turn(state, #[trigger] error_emit_rule(state, cause)),
{
    reveal(error_emit_rule);
}

broadcast proof fn lemma_flushed_sound(state: DriveState, cause: AgentFailureCause)
    ensures
        sound_turn(state, #[trigger] flushed_rule(state, cause)),
{
    broadcast use {lemma_after_select_sound};

    reveal(flushed_rule);
}

broadcast proof fn lemma_waited_sound(
    state: DriveState,
    success: Option<bool>,
    phase_failure: AgentFailureCause,
)
    ensures
        sound_turn(state, #[trigger] waited_rule(state, success, phase_failure)),
{
    broadcast use {lemma_after_select_sound};

    reveal(waited_rule);
}

broadcast proof fn lemma_read_failed_sound(state: DriveState, phase_failure: AgentFailureCause)
    ensures
        sound_turn(state, #[trigger] read_failed_rule(state, phase_failure)),
{
    broadcast use {lemma_after_select_sound};

    reveal(read_failed_rule);
}

broadcast proof fn lemma_validated_sound(state: DriveState, verdict: ResultVerdict)
    ensures
        sound_turn(state, #[trigger] validated_rule(state, verdict)),
{
    broadcast use {lemma_loop_end_sound};

    reveal(validated_rule);
}

broadcast proof fn lemma_result_emitted_sound(state: DriveState, accepted: bool)
    ensures
        sound_turn(state, #[trigger] result_emitted_rule(state, accepted)),
{
    reveal(result_emitted_rule);
}

broadcast proof fn lemma_conclude_sound(
    state: DriveState,
    supervisor_quiesced: bool,
    group_quiescent: bool,
    reason: Option<CancellationReason>,
)
    ensures
        sound_turn(
            state,
            #[trigger] conclude_rule(state, supervisor_quiesced, group_quiescent, reason),
        ),
{
    reveal(conclude_rule);
}

broadcast proof fn lemma_quiescence_emitted_sound(
    state: DriveState,
    delivered: bool,
    phase_failure: AgentFailureCause,
)
    requires
        state.phase == DrivePhase::EmittingQuiescence,
    ensures
        sound_turn(state, #[trigger] quiescence_emitted_rule(state, delivered, phase_failure)),
{
    reveal(quiescence_emitted_rule);
}

broadcast proof fn lemma_selected_sound(state: DriveState, event: DriveEvent)
    ensures
        sound_turn(state, #[trigger] selected_rule(state, event)),
{
    broadcast use {
        lemma_interrupting_sound,
        lemma_after_select_sound,
        lemma_read_failed_sound,
        lemma_parsed_sound,
        lemma_parse_failed_sound,
        lemma_waited_sound,
    };

    reveal(selected_rule);
}

/// Telling of quiescence notes no cancellation.
pub(crate) proof fn lemma_quiescence_keeps_cancellation(state: DriveState, event: DriveEvent)
    requires
        state.phase == DrivePhase::EmittingQuiescence,
    ensures
        drive_process_rule(state, event).state.cancelled == state.cancelled,
{
    reveal(drive_process_rule);
    reveal(quiescence_emitted_rule);
}

/// Everything that holds of a turn, wherever the drive stands.
pub(crate) open(crate) spec fn sound_drive(state: DriveState, event: DriveEvent) -> bool {
    let turn = drive_process_rule(state, event);
    let winding = state.phase == DrivePhase::Awaiting || state.phase == DrivePhase::ForceStopping;
    &&& sound_turn(
        state,
        DriveTurn {
            action: if winding || state.phase == DrivePhase::ProbingTop {
                DriveAction::Rest
            } else {
                turn.action
            },
            ..turn
        },
    )
    &&& state.phase == DrivePhase::ProbingTop ==> turn.action == DriveAction::AwaitProcess
        || turn.action == DriveAction::StopSupervisor || turn.action == DriveAction::Select
    &&& winding ==> turn.action == DriveAction::StopSupervisor || turn.action
        == DriveAction::ForceStop
}

proof fn lemma_opening_turns(state: DriveState, event: DriveEvent)
    requires
        state.phase == DrivePhase::Opening || state.phase == DrivePhase::ProbingEnd
            || state.phase == DrivePhase::ProbingTop || state.phase == DrivePhase::Awaiting
            || state.phase == DrivePhase::ForceStopping || state.phase == DrivePhase::Ended,
    ensures
        sound_drive(state, event),
{
    broadcast use {lemma_loop_top_sound};

    reveal(drive_process_rule);
    reveal(wind_up_rule);
}

proof fn lemma_selecting_turns(state: DriveState, event: DriveEvent)
    requires
        state.phase == DrivePhase::Selecting,
    ensures
        sound_drive(state, event),
{
    broadcast use {lemma_selected_sound};

    reveal(drive_process_rule);
    reveal(wind_up_rule);
}

proof fn lemma_interrupting_turns(state: DriveState, event: DriveEvent)
    requires
        state.phase is Interrupting || state.phase is ClosingAfterInterrupt,
    ensures
        sound_drive(state, event),
{
    broadcast use {lemma_resume_sound};

    reveal(drive_process_rule);
    reveal(wind_up_rule);
}

proof fn lemma_progress_turns(state: DriveState, event: DriveEvent)
    requires
        state.phase is Reporting || state.phase is Emitting || state.phase is Writing,
    ensures
        sound_drive(state, event),
{
    broadcast use {
        lemma_progress_emit_sound,
        lemma_progress_write_sound,
        lemma_progress_close_sound,
    };

    reveal(drive_process_rule);
    reveal(wind_up_rule);
}

proof fn lemma_closing_turns(state: DriveState, event: DriveEvent)
    requires
        state.phase == DrivePhase::Closing || state.phase is ErrorReporting
            || state.phase is ErrorEmitting || state.phase is Flushing,
    ensures
        sound_drive(state, event),
{
    broadcast use {lemma_after_select_sound, lemma_error_emit_sound, lemma_flushed_sound};

    reveal(drive_process_rule);
    reveal(wind_up_rule);
}

proof fn lemma_result_turns(state: DriveState, event: DriveEvent)
    requires
        state.phase == DrivePhase::Taking || state.phase == DrivePhase::Validating
            || state.phase == DrivePhase::Applying || state.phase is EmittingResult,
    ensures
        sound_drive(state, event),
{
    broadcast use {
        lemma_loop_top_sound,
        lemma_loop_end_sound,
        lemma_validated_sound,
        lemma_result_emitted_sound,
    };

    reveal(drive_process_rule);
    reveal(wind_up_rule);
}

proof fn lemma_ending_turns(state: DriveState, event: DriveEvent)
    requires
        state.phase == DrivePhase::Stopping || state.phase == DrivePhase::EmittingQuiescence,
    ensures
        sound_drive(state, event),
{
    broadcast use {lemma_conclude_sound, lemma_quiescence_emitted_sound};

    reveal(drive_process_rule);
    reveal(wind_up_rule);
}

/// Everything that holds of a turn, wherever the drive stands.
pub(crate) proof fn lemma_drive_sound(state: DriveState, event: DriveEvent)
    ensures
        sound_drive(state, event),
{
    if state.phase == DrivePhase::Opening || state.phase == DrivePhase::ProbingEnd
        || state.phase == DrivePhase::ProbingTop || state.phase == DrivePhase::Awaiting
        || state.phase == DrivePhase::ForceStopping || state.phase == DrivePhase::Ended {
        lemma_opening_turns(state, event);
    } else if state.phase == DrivePhase::Selecting {
        lemma_selecting_turns(state, event);
    } else if state.phase is Interrupting || state.phase is ClosingAfterInterrupt {
        lemma_interrupting_turns(state, event);
    } else if state.phase is Reporting || state.phase is Emitting || state.phase is Writing {
        lemma_progress_turns(state, event);
    } else if state.phase == DrivePhase::Closing || state.phase is ErrorReporting
        || state.phase is ErrorEmitting || state.phase is Flushing {
        lemma_closing_turns(state, event);
    } else if state.phase == DrivePhase::Taking || state.phase == DrivePhase::Validating
        || state.phase == DrivePhase::Applying || state.phase is EmittingResult {
        lemma_result_turns(state, event);
    } else {
        lemma_ending_turns(state, event);
    }
}

/// A cancellation, a failure, a closed output, a completion, a reported start, an
/// interruption and a disabled parser are never taken back.
pub proof fn law_drive_takes_nothing_back(state: DriveState, event: DriveEvent)
    ensures
        ({
            let next = drive_process_rule(state, event).state;
            &&& state.cancelled is Some ==> next.cancelled is Some
            &&& state.failure is Some ==> next.failure is Some
            &&& state.output_closed ==> next.output_closed
            &&& state.wait_failed ==> next.wait_failed
            &&& state.completion is Some ==> next.completion is Some
            &&& state.start_reported ==> next.start_reported
            &&& state.interrupt_started ==> next.interrupt_started
            &&& !state.parser_enabled ==> !next.parser_enabled
        }),
{
    lemma_drive_sound(state, event);
}

/// A cancelled run ends as cancelled, whatever else happened to it.
pub proof fn law_cancellation_decides_the_outcome(
    state: DriveState,
    supervisor_quiesced: bool,
    group_quiescent: bool,
    reason: Option<CancellationReason>,
)
    requires
        state.cancelled is Some || reason is Some,
    ensures
        conclude_rule(state, supervisor_quiesced, group_quiescent, reason).action == (
        DriveAction::Finish {
            outcome: DriveOutcome::Cancelled {
                reason: match state.cancelled {
                    Some(reason) => reason,
                    None => reason->Some_0,
                },
            },
        }),
{
    reveal(conclude_rule);
}

/// What the agent reported decides only where nothing went wrong and nothing of
/// the agent is left.
pub proof fn law_reports_decide_only_clean_runs(
    state: DriveState,
    supervisor_quiesced: bool,
    group_quiescent: bool,
    reason: Option<CancellationReason>,
)
    ensures
        conclude_rule(state, supervisor_quiesced, group_quiescent, reason).action
            == DriveAction::EmitQuiescence <==> state.cancelled is None && reason is None
            && state.failure is None && !state.wait_failed && supervisor_quiesced && group_quiescent
            && state.output_closed,
{
    reveal(conclude_rule);
}

/// A drive is wound up only when its output has ended and its process has, or
/// cannot be waited for, and no accepted result is still settling, unless
/// nothing of the process group runs any more.
pub proof fn law_drive_ends_only_when_settled(state: DriveState, event: DriveEvent)
    requires
        state.phase != DrivePhase::Awaiting,
        state.phase != DrivePhase::ForceStopping,
    ensures
        ({
            let turn = drive_process_rule(state, event);
            turn.action == DriveAction::AwaitProcess || turn.action == DriveAction::StopSupervisor
                ==> if state.phase == DrivePhase::ProbingTop {
                event == (DriveEvent::Probed { quiescent: true })
            } else {
                turn.state.output_closed && (turn.state.completion is Some
                    || turn.state.wait_failed) && !turn.state.settling
            }
        }),
{
    lemma_drive_sound(state, event);
    reveal(drive_process_rule);
}

/// Whether the evidence of an outcome tells how the agent broke the protocol: for
/// failures of its setup and of the protocol.
pub open spec fn tells_protocol_rejection(outcome: DriveOutcome) -> bool {
    outcome matches DriveOutcome::Failed { cause } && (cause is HarnessSetupFailed || cause
        == AgentFailureCause::HarnessProtocolFailed)
}

/// Whether the evidence of an outcome tells how the agent broke the protocol.
pub fn keeps_protocol_rejection(outcome: DriveOutcome) -> (keeps: bool)
    ensures
        keeps == tells_protocol_rejection(outcome),
{
    match outcome {
        DriveOutcome::Failed { cause } => match cause {
            AgentFailureCause::HarnessSetupFailed { .. } => true,
            AgentFailureCause::HarnessProtocolFailed => true,
            _ => false,
        },
        _ => false,
    }
}

/// The outcome of an invocation: a cancellation that was accepted by its end
/// precedes what the drive came to.
pub fn invocation_outcome(outcome: DriveOutcome, reason: Option<CancellationReason>) -> (reported:
    DriveOutcome)
    ensures
        reported == (match reason {
            Some(reason) => DriveOutcome::Cancelled { reason },
            None => outcome,
        }),
{
    match reason {
        Some(reason) => DriveOutcome::Cancelled { reason },
        None => outcome,
    }
}

} // verus!

//! What holds of a drive as a whole, whatever comes up in it.

use vstd::prelude::*;

use crate::codex::drive::{
    drive_process_rule, lemma_drive_sound, opening_state, turn_rule, DriveAction, DriveEvent,
    DriveOutcome, DrivePhase, DriveState, DriveTurn,
};

verus! {

/// The turn that a drive takes after some events.
pub open spec fn turn_after(events: Seq<DriveEvent>) -> DriveTurn
    decreases events.len(),
{
    if events.len() == 0 {
        turn_rule(opening_state(), DriveAction::WriteFrames)
    } else {
        drive_process_rule(turn_after(events.drop_last()).state, events.last())
    }
}

/// The turn that a drive takes after the first `count` events.
pub open spec fn turn_at(events: Seq<DriveEvent>, count: int) -> DriveTurn {
    turn_after(events.take(count))
}

/// One more event leads from one turn to the next.
pub(crate) proof fn lemma_next_turn(events: Seq<DriveEvent>, count: int)
    requires
        0 <= count < events.len(),
    ensures
        turn_at(events, count + 1) == drive_process_rule(
            turn_at(events, count).state,
            events[count],
        ),
{
    assert(events.take(count + 1).drop_last() =~= events.take(count));
}

/// What has happened stays so, and a drive that tells of quiescence was not
/// cancelled.
proof fn lemma_kept(events: Seq<DriveEvent>, earlier: int, later: int)
    requires
        0 <= earlier <= later <= events.len(),
    ensures
        ({
            let before = turn_at(events, earlier).state;
            let after = turn_at(events, later).state;
            &&& before.cancelled is Some ==> after.cancelled is Some
            &&& before.start_reported ==> after.start_reported
            &&& before.interrupt_started ==> after.interrupt_started
            &&& before.phase == DrivePhase::Ended ==> after.phase == DrivePhase::Ended
            &&& after.phase == DrivePhase::EmittingQuiescence ==> after.cancelled is None
        }),
    decreases later - earlier,
{
    if later == earlier {
        if later > 0 {
            lemma_next_turn(events, later - 1);
            lemma_drive_sound(turn_at(events, later - 1).state, events[later - 1]);
        } else {
            assert(events.take(0).len() == 0);
        }
    } else {
        lemma_kept(events, earlier, later - 1);
        lemma_next_turn(events, later - 1);
        lemma_drive_sound(turn_at(events, later - 1).state, events[later - 1]);
        reveal(drive_process_rule);
    }
}

/// A drive asks the agent to interrupt its turn at most once.
pub proof fn law_drives_interrupt_at_most_once(
    events: Seq<DriveEvent>,
    earlier: int,
    later: int,
)
    requires
        0 <= earlier < later <= events.len(),
        turn_at(events, earlier).action == DriveAction::Interrupt,
    ensures
        turn_at(events, later).action != DriveAction::Interrupt,
{
    if earlier > 0 {
        lemma_next_turn(events, earlier - 1);
        lemma_drive_sound(turn_at(events, earlier - 1).state, events[earlier - 1]);
    } else {
        assert(events.take(0).len() == 0);
    }
    lemma_kept(events, earlier, later - 1);
    lemma_next_turn(events, later - 1);
    lemma_drive_sound(turn_at(events, later - 1).state, events[later - 1]);
}

/// After a start was reported with success, no drive reports one again.
pub proof fn law_drives_report_one_start(events: Seq<DriveEvent>, earlier: int, later: int)
    requires
        0 <= earlier < later <= events.len(),
        turn_at(events, earlier).action == DriveAction::ReportStart,
        events[earlier] == (DriveEvent::Answered { succeeded: true }),
    ensures
        turn_at(events, later).action != DriveAction::ReportStart,
{
    let reporting = turn_at(events, earlier).state;
    if earlier > 0 {
        lemma_next_turn(events, earlier - 1);
        lemma_drive_sound(turn_at(events, earlier - 1).state, events[earlier - 1]);
    } else {
        assert(events.take(0).len() == 0);
    }
    lemma_next_turn(events, earlier);
    lemma_reported(reporting);
    lemma_kept(events, earlier + 1, later);
    lemma_next_turn(events, later - 1);
    lemma_drive_sound(turn_at(events, later - 1).state, events[later - 1]);
}

/// A start that was reported with success is noted.
proof fn lemma_reported(state: DriveState)
    requires
        state.phase is Reporting || state.phase is ErrorReporting,
    ensures
        drive_process_rule(
            state,
            DriveEvent::Answered { succeeded: true },
        ).state.start_reported,
{
    reveal(drive_process_rule);
    let noted = DriveState { start_reported: true, ..state };
    match state.phase {
        DrivePhase::Reporting { progress } => {
            crate::codex::drive::lemma_progress_emit_sound(noted, progress);
        },
        DrivePhase::ErrorReporting { cause } => {
            crate::codex::drive::lemma_error_emit_sound(noted, cause);
        },
        _ => {},
    }
}

/// Once a drive is cancelled, it reports no start and passes no observation of
/// parsed output on.
pub proof fn law_cancelled_drives_stay_silent(
    events: Seq<DriveEvent>,
    earlier: int,
    later: int,
)
    requires
        0 <= earlier < later <= events.len(),
        turn_at(events, earlier).state.cancelled is Some,
    ensures
        turn_at(events, later).action != DriveAction::ReportStart,
        turn_at(events, later).action != DriveAction::Emit,
{
    lemma_kept(events, earlier, later);
    lemma_next_turn(events, later - 1);
    lemma_drive_sound(turn_at(events, later - 1).state, events[later - 1]);
}

/// A drive that was cancelled at any time ends as cancelled.
pub proof fn law_cancelled_drives_end_cancelled(
    events: Seq<DriveEvent>,
    earlier: int,
    later: int,
    outcome: DriveOutcome,
)
    requires
        0 <= earlier <= later <= events.len(),
        turn_at(events, earlier).state.cancelled is Some,
        turn_at(events, later).action == (DriveAction::Finish { outcome }),
    ensures
        outcome is Cancelled,
{
    lemma_kept(events, earlier, later);
    if later > 0 {
        lemma_next_turn(events, later - 1);
        lemma_kept(events, later - 1, later - 1);
        let last = turn_at(events, later - 1).state;
        lemma_drive_sound(last, events[later - 1]);
        reveal(drive_process_rule);
        if last.phase == DrivePhase::EmittingQuiescence {
            crate::codex::drive::lemma_quiescence_keeps_cancellation(last, events[later - 1]);
        }
    } else {
        assert(events.take(0).len() == 0);
    }
}

/// A drive ends once: after its outcome nothing more is done.
pub proof fn law_drives_end_once(
    events: Seq<DriveEvent>,
    earlier: int,
    later: int,
    outcome: DriveOutcome,
)
    requires
        0 <= earlier < later <= events.len(),
        turn_at(events, earlier).action == (DriveAction::Finish { outcome }),
    ensures
        turn_at(events, later).action == DriveAction::Rest,
{
    if earlier > 0 {
        lemma_next_turn(events, earlier - 1);
        lemma_drive_sound(turn_at(events, earlier - 1).state, events[earlier - 1]);
    } else {
        assert(events.take(0).len() == 0);
    }
    lemma_kept(events, earlier, later - 1);
    lemma_next_turn(events, later - 1);
    reveal(drive_process_rule);
}

} // verus!

//! Launching the process of an app server under guard.

use vstd::prelude::*;

verus! {

/// Where a launch stands.
#[derive(Clone, Copy, Debug, PartialEq, Eq, Structural)]
pub enum LaunchPhase {
    Spawning,
    Connecting,
    Registering,
    Verifying,
    Continuing,
    Releasing,
    Stopping { registered: bool },
    Quiescing,
    Ended,
}

/// What a launch does next.
#[derive(Clone, Copy, Debug, PartialEq, Eq, Structural)]
pub enum LaunchAction {
    /// Take the streams of the stopped process.
    TakeStreams,
    /// Register the process with the guards.
    Register,
    /// Check that the diagnostics are still where they were.
    VerifyDiagnostics,
    /// Let the process run.
    Continue,
    /// Note that the process runs.
    MarkReleased,
    /// Force the process to stop.
    ForceStop,
    /// Note that nothing of the process is left.
    MarkQuiesced,
    /// Hand the process over.
    Launched,
    /// Give up.
    Fail,
    /// Nothing.
    Rest,
}

/// Takes up whether the last step of a launch succeeded. The process is spawned
/// stopped, and runs only once it is registered and its diagnostics are still bound;
/// whatever fails after the spawn forces it to stop.
pub open spec fn launch_process_rule(
    phase: LaunchPhase,
    succeeded: bool,
) -> (LaunchPhase, LaunchAction) {
    match phase {
        LaunchPhase::Spawning => if succeeded {
            (LaunchPhase::Connecting, LaunchAction::TakeStreams)
        } else {
            (LaunchPhase::Ended, LaunchAction::Fail)
        },
        LaunchPhase::Connecting => if succeeded {
            (LaunchPhase::Registering, LaunchAction::Register)
        } else {
            (LaunchPhase::Stopping { registered: false }, LaunchAction::ForceStop)
        },
        LaunchPhase::Registering => if succeeded {
            (LaunchPhase::Verifying, LaunchAction::VerifyDiagnostics)
        } else {
            (LaunchPhase::Stopping { registered: false }, LaunchAction::ForceStop)
        },
        LaunchPhase::Verifying => if succeeded {
            (LaunchPhase::Continuing, LaunchAction::Continue)
        } else {
            (LaunchPhase::Stopping { registered: true }, LaunchAction::ForceStop)
        },
        LaunchPhase::Continuing => if succeeded {
            (LaunchPhase::Releasing, LaunchAction::MarkReleased)
        } else {
            (LaunchPhase::Stopping { registered: true }, LaunchAction::ForceStop)
        },
        LaunchPhase::Releasing => if succeeded {
            (LaunchPhase::Ended, LaunchAction::Launched)
        } else {
            (LaunchPhase::Stopping { registered: true }, LaunchAction::ForceStop)
        },
        LaunchPhase::Stopping { registered } => if registered {
            (LaunchPhase::Quiescing, LaunchAction::MarkQuiesced)
        } else {
            (LaunchPhase::Ended, LaunchAction::Fail)
        },
        LaunchPhase::Quiescing => (LaunchPhase::Ended, LaunchAction::Fail),
        LaunchPhase::Ended => (LaunchPhase::Ended, LaunchAction::Rest),
    }
}

/// Takes up whether the last step of a launch succeeded. The process is spawned
/// stopped, and runs only once it is registered and its diagnostics are still bound;
/// whatever fails after the spawn forces it to stop.
pub fn launch_process(phase: LaunchPhase, succeeded: bool) -> (decided: (LaunchPhase, LaunchAction))
    ensures
        decided == launch_process_rule(phase, succeeded),
{
    match phase {
        LaunchPhase::Spawning => if succeeded {
            (LaunchPhase::Connecting, LaunchAction::TakeStreams)
        } else {
            (LaunchPhase::Ended, LaunchAction::Fail)
        },
        LaunchPhase::Connecting => if succeeded {
            (LaunchPhase::Registering, LaunchAction::Register)
        } else {
            (LaunchPhase::Stopping { registered: false }, LaunchAction::ForceStop)
        },
        LaunchPhase::Registering => if succeeded {
            (LaunchPhase::Verifying, LaunchAction::VerifyDiagnostics)
        } else {
            (LaunchPhase::Stopping { registered: false }, LaunchAction::ForceStop)
        },
        LaunchPhase::Verifying => if succeeded {
            (LaunchPhase::Continuing, LaunchAction::Continue)
        } else {
            (LaunchPhase::Stopping { registered: true }, LaunchAction::ForceStop)
        },
        LaunchPhase::Continuing => if succeeded {
            (LaunchPhase::Releasing, LaunchAction::MarkReleased)
        } else {
            (LaunchPhase::Stopping { registered: true }, LaunchAction::ForceStop)
        },
        LaunchPhase::Releasing => if succeeded {
            (LaunchPhase::Ended, LaunchAction::Launched)
        } else {
            (LaunchPhase::Stopping { registered: true }, LaunchAction::ForceStop)
        },
        LaunchPhase::Stopping { registered } => if registered {
            (LaunchPhase::Quiescing, LaunchAction::MarkQuiesced)
        } else {
            (LaunchPhase::Ended, LaunchAction::Fail)
        },
        LaunchPhase::Quiescing => (LaunchPhase::Ended, LaunchAction::Fail),
        LaunchPhase::Ended => (LaunchPhase::Ended, LaunchAction::Rest),
    }
}

/// Whether forcing a process to stop left nothing of its group.
pub open spec fn force_stop_rule(
    stopped: bool,
    quiescence_marked: bool,
    group_quiescent: bool,
) -> bool {
    stopped && quiescence_marked && group_quiescent
}

/// Whether forcing a process to stop left nothing of its group.
pub fn force_stop(stopped: bool, quiescence_marked: bool, group_quiescent: bool) -> (decided: bool)
    ensures
        decided == force_stop_rule(stopped, quiescence_marked, group_quiescent),
{
    stopped && quiescence_marked && group_quiescent
}

/// What a launch does after some answers, from where it stands.
pub open spec fn launch_actions(phase: LaunchPhase, answers: Seq<bool>) -> Seq<LaunchAction>
    decreases answers.len(),
{
    if answers.len() == 0 {
        Seq::empty()
    } else {
        let (next, action) = launch_process_rule(phase, answers[0]);
        seq![action] + launch_actions(next, answers.skip(1))
    }
}

/// A process is let run only after it was registered and the diagnostics were
/// found bound, and is handed over only after it was let run.
pub proof fn law_processes_run_only_under_guard(phase: LaunchPhase, succeeded: bool)
    ensures
        ({
            let action = launch_process_rule(phase, succeeded).1;
            &&& action == LaunchAction::Launched <==> phase == LaunchPhase::Releasing && succeeded
            &&& action == LaunchAction::MarkReleased <==> phase == LaunchPhase::Continuing
                && succeeded
            &&& action == LaunchAction::Continue <==> phase == LaunchPhase::Verifying && succeeded
            &&& action == LaunchAction::VerifyDiagnostics <==> phase == LaunchPhase::Registering
                && succeeded
        }),
{
}

/// A launch that fails after the spawn forces the process to stop, and then gives
/// up, whatever the answers are.
pub proof fn law_failed_launches_leave_no_process(phase: LaunchPhase, answers: Seq<bool>)
    requires
        phase == LaunchPhase::Connecting || phase == LaunchPhase::Registering || phase
            == LaunchPhase::Verifying || phase == LaunchPhase::Continuing || phase
            == LaunchPhase::Releasing,
        answers.len() >= 3,
        !answers[0],
    ensures
        launch_actions(phase, answers)[0] == LaunchAction::ForceStop,
        launch_actions(phase, answers)[1] == LaunchAction::Fail || (launch_actions(
            phase,
            answers,
        )[1] == LaunchAction::MarkQuiesced && launch_actions(phase, answers)[2]
            == LaunchAction::Fail),
{
    reveal_with_fuel(launch_actions, 4);
}

} // verus!

//! Supervising the process group of an agent, apart from what it reads and writes.

use vstd::prelude::*;

verus! {

/// What a supervisor remembers.
#[derive(Clone, Copy, Debug, PartialEq, Eq, Structural)]
pub struct SupervisorState {
    pub cancellation_observed: bool,
    pub interrupt_requested: bool,
    pub directives_open: bool,
}

/// What comes up for a supervisor.
#[derive(Clone, Copy, Debug, PartialEq, Eq, Structural)]
pub enum SupervisorEvent {
    /// The drive has ended.
    Shutdown,
    /// A cancellation was accepted.
    CancellationAccepted,
    /// The agent is to be interrupted.
    InterruptDirected,
    /// The agent is to be forced to stop.
    ForceDirected,
    /// No directive comes any more.
    DirectivesClosed,
}

/// What a supervisor does next.
#[derive(Clone, Copy, Debug, PartialEq, Eq, Structural)]
pub enum SupervisorAction {
    Listen,
    RequestInterrupt,
    TerminateAndReturn,
    Return,
}

/// Where a supervisor stands after an event, and what it does next.
#[derive(Clone, Copy, Debug, PartialEq, Eq, Structural)]
pub struct SupervisorTurn {
    pub state: SupervisorState,
    pub action: SupervisorAction,
}

/// A supervisor that has seen nothing yet.
pub fn begin_supervision() -> (state: SupervisorState)
    ensures
        state == (SupervisorState {
            cancellation_observed: false,
            interrupt_requested: false,
            directives_open: true,
        }),
{
    SupervisorState {
        cancellation_observed: false,
        interrupt_requested: false,
        directives_open: true,
    }
}

/// Takes up an event. A graceful request is passed on to the agent once; a forced
/// stop ends the process group and the supervision.
pub open spec fn supervise_process_group_rule(
    state: SupervisorState,
    event: SupervisorEvent,
) -> SupervisorTurn {
    match event {
        SupervisorEvent::Shutdown => SupervisorTurn { state, action: SupervisorAction::Return },
        SupervisorEvent::CancellationAccepted => SupervisorTurn {
            state: SupervisorState {
                cancellation_observed: true,
                interrupt_requested: true,
                ..state
            },
            action: if state.interrupt_requested {
                SupervisorAction::Listen
            } else {
                SupervisorAction::RequestInterrupt
            },
        },
        SupervisorEvent::InterruptDirected => SupervisorTurn {
            state: SupervisorState { interrupt_requested: true, ..state },
            action: if state.interrupt_requested {
                SupervisorAction::Listen
            } else {
                SupervisorAction::RequestInterrupt
            },
        },
        SupervisorEvent::ForceDirected => SupervisorTurn {
            state,
            action: SupervisorAction::TerminateAndReturn,
        },
        SupervisorEvent::DirectivesClosed => SupervisorTurn {
            state: SupervisorState { directives_open: false, ..state },
            action: SupervisorAction::Listen,
        },
    }
}

/// Takes up an event. A graceful request is passed on to the agent once; a forced
/// stop ends the process group and the supervision.
pub fn supervise_process_group(
    state: SupervisorState,
    event: SupervisorEvent,
) -> (decided: SupervisorTurn)
    ensures
        decided == supervise_process_group_rule(state, event),
{
    match event {
        SupervisorEvent::Shutdown => SupervisorTurn { state, action: SupervisorAction::Return },
        SupervisorEvent::CancellationAccepted => SupervisorTurn {
            state: SupervisorState {
                cancellation_observed: true,
                interrupt_requested: true,
                ..state
            },
            action: if state.interrupt_requested {
                SupervisorAction::Listen
            } else {
                SupervisorAction::RequestInterrupt
            },
        },
        SupervisorEvent::InterruptDirected => SupervisorTurn {
            state: SupervisorState { interrupt_requested: true, ..state },
            action: if state.interrupt_requested {
                SupervisorAction::Listen
            } else {
                SupervisorAction::RequestInterrupt
            },
        },
        SupervisorEvent::ForceDirected => SupervisorTurn {
            state,
            action: SupervisorAction::TerminateAndReturn,
        },
        SupervisorEvent::DirectivesClosed => SupervisorTurn {
            state: SupervisorState { directives_open: false, ..state },
            action: SupervisorAction::Listen,
        },
    }
}

/// An interruption is requested at most once, and never forgotten.
pub proof fn law_interrupt_is_requested_at_most_once(state: SupervisorState, event: SupervisorEvent)
    ensures
        ({
            let turn = supervise_process_group_rule(state, event);
            &&& turn.action == SupervisorAction::RequestInterrupt ==> !state.interrupt_requested
                && turn.state.interrupt_requested
            &&& state.interrupt_requested ==> turn.state.interrupt_requested
        }),
{
}

/// The process group is terminated only when that is directed.
pub proof fn law_only_force_terminates(state: SupervisorState, event: SupervisorEvent)
    ensures
        supervise_process_group_rule(state, event).action == SupervisorAction::TerminateAndReturn
            <==> event == SupervisorEvent::ForceDirected,
{
}

} // verus!

//! How an agent's run can end.

use vstd::prelude::*;

verus! {

/// How far an agent's harness got before its setup failed.
#[derive(Clone, Copy, Debug, PartialEq, Eq, Structural)]
pub enum AgentHarnessSetupStage {
    ExecutableLaunch,
    Initialization,
    EffectiveConfiguration,
    ThreadStart,
    TurnStart,
    StartAcknowledgement,
}

/// How an agent's harness failed.
#[derive(Clone, Copy, Debug, PartialEq, Eq, Structural)]
pub enum AgentHarnessFailureDetail {
    ModelError,
    ModelAborted,
    ModelOutputTruncated,
    UnsuccessfulExit,
}

/// An input of an agent whose size is bounded.
#[derive(Clone, Copy, Debug, PartialEq, Eq, Structural)]
pub enum AgentInputKind {
    SystemPrompt,
    Message,
}

/// Why an agent's run failed.
#[derive(Clone, Copy, Debug, PartialEq, Eq, Structural)]
pub enum AgentFailureCause {
    HarnessStartFailed,
    HarnessSetupFailed { stage: AgentHarnessSetupStage },
    HarnessInputTooLarge { kind: AgentInputKind },
    HarnessFailed { detail: AgentHarnessFailureDetail },
    HarnessProtocolFailed,
    MissingResponse,
    MissingResult,
    ResultValidationLimitExceeded,
    CapturedValueTooLarge,
    ResultSettlementFailed,
}

/// A failed run of an agent.
#[derive(Clone, Copy, Debug, PartialEq, Eq, Structural)]
pub struct AgentFailure {
    pub cause: AgentFailureCause,
}

} // verus!

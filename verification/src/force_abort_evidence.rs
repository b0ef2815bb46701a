//! Which cancellations the evidence of a force-aborted run may show.

use vstd::prelude::*;

use crate::evidence::CancellationReason;
use crate::runtime::{ForceAbortPhaseV1, RunCancellationPhase};

verus! {

/// The part of a run that its first force abort met.
#[derive(Clone, Copy, Debug, PartialEq, Eq, Structural)]
pub enum FirstForceAbortPhase {
    Ordinary,
    Finalization,
}

impl From<ForceAbortPhaseV1> for FirstForceAbortPhase {
    fn from(phase: ForceAbortPhaseV1) -> (first: Self) {
        match phase {
            ForceAbortPhaseV1::Ordinary => FirstForceAbortPhase::Ordinary,
            ForceAbortPhaseV1::Finalization => FirstForceAbortPhase::Finalization,
        }
    }
}

impl vstd::std_specs::convert::FromSpecImpl<ForceAbortPhaseV1> for FirstForceAbortPhase {
    open spec fn obeys_from_spec() -> bool {
        true
    }

    open spec fn from_spec(phase: ForceAbortPhaseV1) -> Self {
        match phase {
            ForceAbortPhaseV1::Ordinary => FirstForceAbortPhase::Ordinary,
            ForceAbortPhaseV1::Finalization => FirstForceAbortPhase::Finalization,
        }
    }
}

impl From<RunCancellationPhase> for FirstForceAbortPhase {
    fn from(phase: RunCancellationPhase) -> (first: Self) {
        match phase {
            RunCancellationPhase::Ordinary => FirstForceAbortPhase::Ordinary,
            RunCancellationPhase::Finalization => FirstForceAbortPhase::Finalization,
        }
    }
}

impl vstd::std_specs::convert::FromSpecImpl<RunCancellationPhase> for FirstForceAbortPhase {
    open spec fn obeys_from_spec() -> bool {
        true
    }

    open spec fn from_spec(phase: RunCancellationPhase) -> Self {
        match phase {
            RunCancellationPhase::Ordinary => FirstForceAbortPhase::Ordinary,
            RunCancellationPhase::Finalization => FirstForceAbortPhase::Finalization,
        }
    }
}

/// Whether an ordinary node can have been cancelled for the reason `actual`: by
/// the ordinary cancellation, or by a force abort that met ordinary nodes first.
pub fn ordinary_node_cancellation_matches(
    actual: CancellationReason,
    ordinary_cancellation: Option<CancellationReason>,
    force_abort_reason: CancellationReason,
    first_force_abort_phase: Option<FirstForceAbortPhase>,
) -> (matches: bool)
    ensures
        matches == (ordinary_cancellation == Some(actual) || (actual == force_abort_reason
            && first_force_abort_phase == Some(FirstForceAbortPhase::Ordinary))),
{
    let cancelled: bool = match ordinary_cancellation {
        Some(reason) => reason == actual,
        None => false,
    };
    let aborted: bool = match first_force_abort_phase {
        Some(phase) => phase == FirstForceAbortPhase::Ordinary,
        None => false,
    };
    cancelled || (actual == force_abort_reason && aborted)
}

/// Whether a finalizer can have been cancelled for the reason `actual`: by the
/// cancellation of finalization, or by a force abort.
pub fn finalization_node_cancellation_matches(
    actual: CancellationReason,
    finalization_cancellation: Option<CancellationReason>,
    force_abort_reason: CancellationReason,
    force_abort: bool,
) -> (matches: bool)
    ensures
        matches == (finalization_cancellation == Some(actual) || (force_abort && actual
            == force_abort_reason)),
{
    let cancelled: bool = match finalization_cancellation {
        Some(reason) => reason == actual,
        None => false,
    };
    cancelled || (force_abort && actual == force_abort_reason)
}

/// Whether the cancellation of finalization agrees with the first force abort:
/// one that met ordinary nodes first cancels finalization too.
pub fn finalization_cancellation_matches_force_phase(
    finalization_cancellation: Option<CancellationReason>,
    force_abort_reason: CancellationReason,
    first_force_abort_phase: Option<FirstForceAbortPhase>,
) -> (matches: bool)
    ensures
        matches == (first_force_abort_phase != Some(FirstForceAbortPhase::Ordinary)
            || finalization_cancellation == Some(force_abort_reason)),
{
    let ordinary_first: bool = match first_force_abort_phase {
        Some(phase) => phase == FirstForceAbortPhase::Ordinary,
        None => false,
    };
    let cancelled: bool = match finalization_cancellation {
        Some(reason) => reason == force_abort_reason,
        None => false,
    };
    !ordinary_first || cancelled
}

} // verus!

//! Coordinating a run: which occurrence is taken next, in what order, and what
//! follows once its effect has been committed.

use vstd::prelude::*;

use crate::bytes::bytes_equal;
use crate::evidence::CancellationReason;
use crate::named::NamedValues;
use crate::runtime::{
    Action, ActionId, CancellationOperation, RecoveryDecision, RecoveryRoundNumber,
    RequestedAction, TargetExecutionNumber, TransitionEvent, WorkflowState, WorkflowStateKind,
};
use crate::text::{text_equal, texts};

verus! {

/// The place of an occurrence in the order in which occurrences were taken.
#[derive(Clone, Copy, Debug, PartialEq, Eq, Structural)]
pub struct OccurrenceOrdinal(u64);

impl OccurrenceOrdinal {
    /// The place, counted from one.
    pub closed spec fn position(self) -> int {
        self.0 as int
    }

    /// The place before the first occurrence.
    pub fn origin() -> (ordinal: OccurrenceOrdinal)
        ensures
            ordinal.position() == 0,
    {
        OccurrenceOrdinal(0)
    }

    /// The place, counted from one.
    pub fn get(self) -> (position: u64)
        ensures
            position == self.position(),
    {
        self.0
    }

    /// The next place, as long as there is one.
    pub fn next(self) -> (next: Option<OccurrenceOrdinal>)
        ensures
            match next {
                Some(ordinal) => ordinal.position() == self.position() + 1,
                None => self.position() == u64::MAX,
            },
    {
        match self.0.checked_add(1) {
            Some(position) => Some(OccurrenceOrdinal(position)),
            None => None,
        }
    }
}

/// Something that happened, as the run's state is told of it.
#[derive(Clone, Debug, PartialEq, Eq)]
pub enum Occurrence<P, C, O> {
    StepStarted { step: String, action: ActionId },
    StepStartFailed { step: String, action: ActionId, cause: C },
    StepExecutionCompleted { step: String, action: ActionId, provisional: P },
    StepExecutionFailed { step: String, action: ActionId, cause: C },
    OutputsCaptured { step: String, action: ActionId, outputs: NamedValues<O> },
    OutputCaptureFailed { step: String, action: ActionId, cause: C },
    RecoveryHandlerStarted { step: String, round: RecoveryRoundNumber, action: ActionId },
    RecoveryHandlerStartFailed {
        step: String,
        round: RecoveryRoundNumber,
        action: ActionId,
        cause: C,
    },
    RecoveryHandlerCompleted {
        step: String,
        round: RecoveryRoundNumber,
        action: ActionId,
        decision: RecoveryDecision,
    },
    RecoveryHandlerExecutionFailed {
        step: String,
        round: RecoveryRoundNumber,
        action: ActionId,
        cause: C,
    },
    StepQuiesced { step: String, action: ActionId },
    CancellationOperationRequested { operation: u64, reason: CancellationReason, deadline: u64 },
    ForceAbortRequested { operation: u64, deadline: u64 },
}

/// Something that happened to a step or its recovery handler.
#[derive(Clone, Debug, PartialEq, Eq)]
pub enum DriverOccurrence<P, C, O> {
    StepStarted { step: String, action: ActionId },
    StepStartFailed { step: String, action: ActionId, cause: C },
    StepExecutionCompleted { step: String, action: ActionId, provisional: P },
    StepExecutionFailed { step: String, action: ActionId, cause: C },
    OutputsCaptured { step: String, action: ActionId, outputs: NamedValues<O> },
    OutputCaptureFailed { step: String, action: ActionId, cause: C },
    RecoveryHandlerStarted { step: String, round: RecoveryRoundNumber, action: ActionId },
    RecoveryHandlerStartFailed {
        step: String,
        round: RecoveryRoundNumber,
        action: ActionId,
        cause: C,
    },
    RecoveryHandlerCompleted {
        step: String,
        round: RecoveryRoundNumber,
        action: ActionId,
        decision: RecoveryDecision,
    },
    RecoveryHandlerExecutionFailed {
        step: String,
        round: RecoveryRoundNumber,
        action: ActionId,
        cause: C,
    },
    StepQuiesced { step: String, action: ActionId },
}

/// What kind of thing happened.
#[derive(Clone, Copy, Debug, PartialEq, Eq, Structural)]
pub enum DriverOccurrenceKind {
    StepStarted,
    StepStartFailed,
    StepExecutionCompleted,
    StepExecutionFailed,
    OutputsCaptured,
    OutputCaptureFailed,
    RecoveryHandlerStarted,
    RecoveryHandlerStartFailed,
    RecoveryHandlerCompleted,
    RecoveryHandlerExecutionFailed,
    StepQuiesced,
}

/// What an occurrence is told apart by: the action that it answers, what kind of
/// thing happened, and the recovery round.
#[derive(Clone, Copy, Debug, PartialEq, Eq, Structural)]
pub struct DriverOccurrenceIdentity {
    pub action: ActionId,
    pub kind: DriverOccurrenceKind,
    pub round: Option<RecoveryRoundNumber>,
}

impl<P, C, O> DriverOccurrence<P, C, O> {
    /// What the occurrence is told apart by.
    pub open spec fn identified(&self) -> DriverOccurrenceIdentity {
        match self {
            DriverOccurrence::StepStarted { action, .. } => DriverOccurrenceIdentity {
                action: *action,
                kind: DriverOccurrenceKind::StepStarted,
                round: None,
            },
            DriverOccurrence::StepStartFailed { action, .. } => DriverOccurrenceIdentity {
                action: *action,
                kind: DriverOccurrenceKind::StepStartFailed,
                round: None,
            },
            DriverOccurrence::StepExecutionCompleted { action, .. } => DriverOccurrenceIdentity {
                action: *action,
                kind: DriverOccurrenceKind::StepExecutionCompleted,
                round: None,
            },
            DriverOccurrence::StepExecutionFailed { action, .. } => DriverOccurrenceIdentity {
                action: *action,
                kind: DriverOccurrenceKind::StepExecutionFailed,
                round: None,
            },
            DriverOccurrence::OutputsCaptured { action, .. } => DriverOccurrenceIdentity {
                action: *action,
                kind: DriverOccurrenceKind::OutputsCaptured,
                round: None,
            },
            DriverOccurrence::OutputCaptureFailed { action, .. } => DriverOccurrenceIdentity {
                action: *action,
                kind: DriverOccurrenceKind::OutputCaptureFailed,
                round: None,
            },
            DriverOccurrence::RecoveryHandlerStarted {
                round,
                action,
                ..
            } => DriverOccurrenceIdentity {
                action: *action,
                kind: DriverOccurrenceKind::RecoveryHandlerStarted,
                round: Some(*round),
            },
            DriverOccurrence::RecoveryHandlerStartFailed {
                round,
                action,
                ..
            } => DriverOccurrenceIdentity {
                action: *action,
                kind: DriverOccurrenceKind::RecoveryHandlerStartFailed,
                round: Some(*round),
            },
            DriverOccurrence::RecoveryHandlerCompleted {
                round,
                action,
                ..
            } => DriverOccurrenceIdentity {
                action: *action,
                kind: DriverOccurrenceKind::RecoveryHandlerCompleted,
                round: Some(*round),
            },
            DriverOccurrence::RecoveryHandlerExecutionFailed {
                round,
                action,
                ..
            } => DriverOccurrenceIdentity {
                action: *action,
                kind: DriverOccurrenceKind::RecoveryHandlerExecutionFailed,
                round: Some(*round),
            },
            DriverOccurrence::StepQuiesced { action, .. } => DriverOccurrenceIdentity {
                action: *action,
                kind: DriverOccurrenceKind::StepQuiesced,
                round: None,
            },
        }
    }

    /// The occurrence as the run's state is told of it.
    pub open spec fn runtime_form(self) -> Occurrence<P, C, O> {
        match self {
            DriverOccurrence::StepStarted { step, action } => {
                Occurrence::StepStarted { step, action }
            },
            DriverOccurrence::StepStartFailed { step, action, cause } => {
                Occurrence::StepStartFailed { step, action, cause }
            },
            DriverOccurrence::StepExecutionCompleted { step, action, provisional } => {
                Occurrence::StepExecutionCompleted { step, action, provisional }
            },
            DriverOccurrence::StepExecutionFailed { step, action, cause } => {
                Occurrence::StepExecutionFailed { step, action, cause }
            },
            DriverOccurrence::OutputsCaptured { step, action, outputs } => {
                Occurrence::OutputsCaptured { step, action, outputs }
            },
            DriverOccurrence::OutputCaptureFailed { step, action, cause } => {
                Occurrence::OutputCaptureFailed { step, action, cause }
            },
            DriverOccurrence::RecoveryHandlerStarted { step, round, action } => {
                Occurrence::RecoveryHandlerStarted { step, round, action }
            },
            DriverOccurrence::RecoveryHandlerStartFailed { step, round, action, cause } => {
                Occurrence::RecoveryHandlerStartFailed { step, round, action, cause }
            },
            DriverOccurrence::RecoveryHandlerCompleted { step, round, action, decision } => {
                Occurrence::RecoveryHandlerCompleted { step, round, action, decision }
            },
            DriverOccurrence::RecoveryHandlerExecutionFailed { step, round, action, cause } => {
                Occurrence::RecoveryHandlerExecutionFailed { step, round, action, cause }
            },
            DriverOccurrence::StepQuiesced { step, action } => {
                Occurrence::StepQuiesced { step, action }
            },
        }
    }

    /// A step runs.
    pub fn step_started(step: String, action: ActionId) -> (occurrence: Self)
        ensures
            occurrence == (DriverOccurrence::<P, C, O>::StepStarted { step, action }),
    {
        DriverOccurrence::StepStarted { step, action }
    }

    /// A step could not be started.
    pub fn step_start_failed(step: String, action: ActionId, cause: C) -> (occurrence: Self)
        ensures
            occurrence == (DriverOccurrence::<P, C, O>::StepStartFailed { step, action, cause }),
    {
        DriverOccurrence::StepStartFailed { step, action, cause }
    }

    /// A step's execution completed.
    pub fn step_execution_completed(
        step: String,
        action: ActionId,
        provisional: P,
    ) -> (occurrence: Self)
        ensures
            occurrence == (DriverOccurrence::<P, C, O>::StepExecutionCompleted {
                step,
                action,
                provisional,
            }),
    {
        DriverOccurrence::StepExecutionCompleted { step, action, provisional }
    }

    /// A step's execution failed.
    pub fn step_execution_failed(step: String, action: ActionId, cause: C) -> (occurrence: Self)
        ensures
            occurrence == (DriverOccurrence::<P, C, O>::StepExecutionFailed {
                step,
                action,
                cause,
            }),
    {
        DriverOccurrence::StepExecutionFailed { step, action, cause }
    }

    /// A step's outputs were captured.
    pub fn outputs_captured(
        step: String,
        action: ActionId,
        outputs: NamedValues<O>,
    ) -> (occurrence: Self)
        ensures
            occurrence == (DriverOccurrence::<P, C, O>::OutputsCaptured { step, action, outputs }),
    {
        DriverOccurrence::OutputsCaptured { step, action, outputs }
    }

    /// A step's outputs could not be captured.
    pub fn output_capture_failed(step: String, action: ActionId, cause: C) -> (occurrence: Self)
        ensures
            occurrence == (DriverOccurrence::<P, C, O>::OutputCaptureFailed {
                step,
                action,
                cause,
            }),
    {
        DriverOccurrence::OutputCaptureFailed { step, action, cause }
    }

    /// A recovery handler runs.
    pub fn recovery_handler_started(
        step: String,
        round: RecoveryRoundNumber,
        action: ActionId,
    ) -> (occurrence: Self)
        ensures
            occurrence == (DriverOccurrence::<P, C, O>::RecoveryHandlerStarted {
                step,
                round,
                action,
            }),
    {
        DriverOccurrence::RecoveryHandlerStarted { step, round, action }
    }

    /// A recovery handler could not be started.
    pub fn recovery_handler_start_failed(
        step: String,
        round: RecoveryRoundNumber,
        action: ActionId,
        cause: C,
    ) -> (occurrence: Self)
        ensures
            occurrence == (DriverOccurrence::<P, C, O>::RecoveryHandlerStartFailed {
                step,
                round,
                action,
                cause,
            }),
    {
        DriverOccurrence::RecoveryHandlerStartFailed { step, round, action, cause }
    }

    /// A recovery handler decided.
    pub fn recovery_handler_completed(
        step: String,
        round: RecoveryRoundNumber,
        action: ActionId,
        decision: RecoveryDecision,
    ) -> (occurrence: Self)
        ensures
            occurrence == (DriverOccurrence::<P, C, O>::RecoveryHandlerCompleted {
                step,
                round,
                action,
                decision,
            }),
    {
        DriverOccurrence::RecoveryHandlerCompleted { step, round, action, decision }
    }

    /// A recovery handler failed.
    pub fn recovery_handler_execution_failed(
        step: String,
        round: RecoveryRoundNumber,
        action: ActionId,
        cause: C,
    ) -> (occurrence: Self)
        ensures
            occurrence == (DriverOccurrence::<P, C, O>::RecoveryHandlerExecutionFailed {
                step,
                round,
                action,
                cause,
            }),
    {
        DriverOccurrence::RecoveryHandlerExecutionFailed { step, round, action, cause }
    }

    /// Nothing of a step runs any more.
    pub fn step_quiesced(step: String, action: ActionId) -> (occurrence: Self)
        ensures
            occurrence == (DriverOccurrence::<P, C, O>::StepQuiesced { step, action }),
    {
        DriverOccurrence::StepQuiesced { step, action }
    }

    /// The occurrence as the run's state is told of it.
    pub fn into_runtime(self) -> (occurrence: Occurrence<P, C, O>)
        ensures
            occurrence == self.runtime_form(),
    {
        match self {
            DriverOccurrence::StepStarted { step, action } => {
                Occurrence::StepStarted { step, action }
            },
            DriverOccurrence::StepStartFailed { step, action, cause } => {
                Occurrence::StepStartFailed { step, action, cause }
            },
            DriverOccurrence::StepExecutionCompleted { step, action, provisional } => {
                Occurrence::StepExecutionCompleted { step, action, provisional }
            },
            DriverOccurrence::StepExecutionFailed { step, action, cause } => {
                Occurrence::StepExecutionFailed { step, action, cause }
            },
            DriverOccurrence::OutputsCaptured { step, action, outputs } => {
                Occurrence::OutputsCaptured { step, action, outputs }
            },
            DriverOccurrence::OutputCaptureFailed { step, action, cause } => {
                Occurrence::OutputCaptureFailed { step, action, cause }
            },
            DriverOccurrence::RecoveryHandlerStarted { step, round, action } => {
                Occurrence::RecoveryHandlerStarted { step, round, action }
            },
            DriverOccurrence::RecoveryHandlerStartFailed { step, round, action, cause } => {
                Occurrence::RecoveryHandlerStartFailed { step, round, action, cause }
            },
            DriverOccurrence::RecoveryHandlerCompleted { step, round, action, decision } => {
                Occurrence::RecoveryHandlerCompleted { step, round, action, decision }
            },
            DriverOccurrence::RecoveryHandlerExecutionFailed { step, round, action, cause } => {
                Occurrence::RecoveryHandlerExecutionFailed { step, round, action, cause }
            },
            DriverOccurrence::StepQuiesced { step, action } => {
                Occurrence::StepQuiesced { step, action }
            },
        }
    }

    /// What the occurrence is told apart by.
    pub fn identity(&self) -> (identity: DriverOccurrenceIdentity)
        ensures
            identity == self.identified(),
    {
        match self {
            DriverOccurrence::StepStarted { action, .. } => DriverOccurrenceIdentity {
                action: *action,
                kind: DriverOccurrenceKind::StepStarted,
                round: None,
            },
            DriverOccurrence::StepStartFailed { action, .. } => DriverOccurrenceIdentity {
                action: *action,
                kind: DriverOccurrenceKind::StepStartFailed,
                round: None,
            },
            DriverOccurrence::StepExecutionCompleted { action, .. } => DriverOccurrenceIdentity {
                action: *action,
                kind: DriverOccurrenceKind::StepExecutionCompleted,
                round: None,
            },
            DriverOccurrence::StepExecutionFailed { action, .. } => DriverOccurrenceIdentity {
                action: *action,
                kind: DriverOccurrenceKind::StepExecutionFailed,
                round: None,
            },
            DriverOccurrence::OutputsCaptured { action, .. } => DriverOccurrenceIdentity {
                action: *action,
                kind: DriverOccurrenceKind::OutputsCaptured,
                round: None,
            },
            DriverOccurrence::OutputCaptureFailed { action, .. } => DriverOccurrenceIdentity {
                action: *action,
                kind: DriverOccurrenceKind::OutputCaptureFailed,
                round: None,
            },
            DriverOccurrence::RecoveryHandlerStarted {
                round,
                action,
                ..
            } => DriverOccurrenceIdentity {
                action: *action,
                kind: DriverOccurrenceKind::RecoveryHandlerStarted,
                round: Some(*round),
            },
            DriverOccurrence::RecoveryHandlerStartFailed {
                round,
                action,
                ..
            } => DriverOccurrenceIdentity {
                action: *action,
                kind: DriverOccurrenceKind::RecoveryHandlerStartFailed,
                round: Some(*round),
            },
            DriverOccurrence::RecoveryHandlerCompleted {
                round,
                action,
                ..
            } => DriverOccurrenceIdentity {
                action: *action,
                kind: DriverOccurrenceKind::RecoveryHandlerCompleted,
                round: Some(*round),
            },
            DriverOccurrence::RecoveryHandlerExecutionFailed {
                round,
                action,
                ..
            } => DriverOccurrenceIdentity {
                action: *action,
                kind: DriverOccurrenceKind::RecoveryHandlerExecutionFailed,
                round: Some(*round),
            },
            DriverOccurrence::StepQuiesced { action, .. } => DriverOccurrenceIdentity {
                action: *action,
                kind: DriverOccurrenceKind::StepQuiesced,
                round: None,
            },
        }
    }
}

/// What an occurrence tells, beside its identity.
pub enum ContentModel {
    Nothing,
    Payload(Seq<u8>),
    Outputs(Map<Seq<char>, Seq<u8>>),
}

/// An occurrence, by its identity and all that it tells.
pub struct OccurrenceModel {
    pub identity: DriverOccurrenceIdentity,
    pub step: Seq<char>,
    pub content: ContentModel,
}

/// An occurrence whose payloads are given by the bytes of their content.
pub type RecordedOccurrence = DriverOccurrence<Vec<u8>, Vec<u8>, Vec<u8>>;

/// The contents of outputs by name.
pub open spec fn output_contents(outputs: NamedValues<Vec<u8>>) -> Map<Seq<char>, Seq<u8>> {
    outputs.contents().map_values(|content: Vec<u8>| content@)
}

/// An occurrence, by its identity and all that it tells.
pub open spec fn occurrence_model(occurrence: RecordedOccurrence) -> OccurrenceModel {
    OccurrenceModel {
        identity: occurrence.identified(),
        step: match occurrence {
            DriverOccurrence::StepStarted { step, .. } => step@,
            DriverOccurrence::StepStartFailed { step, .. } => step@,
            DriverOccurrence::StepExecutionCompleted { step, .. } => step@,
            DriverOccurrence::StepExecutionFailed { step, .. } => step@,
            DriverOccurrence::OutputsCaptured { step, .. } => step@,
            DriverOccurrence::OutputCaptureFailed { step, .. } => step@,
            DriverOccurrence::RecoveryHandlerStarted { step, .. } => step@,
            DriverOccurrence::RecoveryHandlerStartFailed { step, .. } => step@,
            DriverOccurrence::RecoveryHandlerCompleted { step, .. } => step@,
            DriverOccurrence::RecoveryHandlerExecutionFailed { step, .. } => step@,
            DriverOccurrence::StepQuiesced { step, .. } => step@,
        },
        content: match occurrence {
            DriverOccurrence::StepStarted { .. } => ContentModel::Nothing,
            DriverOccurrence::StepStartFailed { cause, .. } => ContentModel::Payload(cause@),
            DriverOccurrence::StepExecutionCompleted { provisional, .. } => {
                ContentModel::Payload(provisional@)
            },
            DriverOccurrence::StepExecutionFailed { cause, .. } => ContentModel::Payload(cause@),
            DriverOccurrence::OutputsCaptured { outputs, .. } => {
                ContentModel::Outputs(output_contents(outputs))
            },
            DriverOccurrence::OutputCaptureFailed { cause, .. } => ContentModel::Payload(cause@),
            DriverOccurrence::RecoveryHandlerStarted { .. } => ContentModel::Nothing,
            DriverOccurrence::RecoveryHandlerStartFailed { cause, .. } => {
                ContentModel::Payload(cause@)
            },
            DriverOccurrence::RecoveryHandlerCompleted { decision, .. } => {
                ContentModel::Payload(decision.content@)
            },
            DriverOccurrence::RecoveryHandlerExecutionFailed { cause, .. } => {
                ContentModel::Payload(cause@)
            },
            DriverOccurrence::StepQuiesced { .. } => ContentModel::Nothing,
        },
    }
}

/// The step that an occurrence names.
fn step_of(occurrence: &RecordedOccurrence) -> (step: &String)
    ensures
        step@ == occurrence_model(*occurrence).step,
{
    match occurrence {
        DriverOccurrence::StepStarted { step, .. } => step,
        DriverOccurrence::StepStartFailed { step, .. } => step,
        DriverOccurrence::StepExecutionCompleted { step, .. } => step,
        DriverOccurrence::StepExecutionFailed { step, .. } => step,
        DriverOccurrence::OutputsCaptured { step, .. } => step,
        DriverOccurrence::OutputCaptureFailed { step, .. } => step,
        DriverOccurrence::RecoveryHandlerStarted { step, .. } => step,
        DriverOccurrence::RecoveryHandlerStartFailed { step, .. } => step,
        DriverOccurrence::RecoveryHandlerCompleted { step, .. } => step,
        DriverOccurrence::RecoveryHandlerExecutionFailed { step, .. } => step,
        DriverOccurrence::StepQuiesced { step, .. } => step,
    }
}

/// What an occurrence tells, beside its identity.
enum ContentRef<'a> {
    Nothing,
    Payload(&'a Vec<u8>),
    Outputs(&'a NamedValues<Vec<u8>>),
}

impl<'a> ContentRef<'a> {
    spec fn model(&self) -> ContentModel {
        match self {
            ContentRef::Nothing => ContentModel::Nothing,
            ContentRef::Payload(bytes) => ContentModel::Payload(bytes@),
            ContentRef::Outputs(outputs) => ContentModel::Outputs(output_contents(**outputs)),
        }
    }
}

/// What an occurrence tells, beside its identity.
fn content_of(occurrence: &RecordedOccurrence) -> (content: ContentRef<'_>)
    ensures
        content.model() == occurrence_model(*occurrence).content,
{
    match occurrence {
        DriverOccurrence::StepStarted { .. } => ContentRef::Nothing,
        DriverOccurrence::StepStartFailed { cause, .. } => ContentRef::Payload(cause),
        DriverOccurrence::StepExecutionCompleted { provisional, .. } => {
            ContentRef::Payload(provisional)
        },
        DriverOccurrence::StepExecutionFailed { cause, .. } => ContentRef::Payload(cause),
        DriverOccurrence::OutputsCaptured { outputs, .. } => ContentRef::Outputs(outputs),
        DriverOccurrence::OutputCaptureFailed { cause, .. } => ContentRef::Payload(cause),
        DriverOccurrence::RecoveryHandlerStarted { .. } => ContentRef::Nothing,
        DriverOccurrence::RecoveryHandlerStartFailed { cause, .. } => ContentRef::Payload(cause),
        DriverOccurrence::RecoveryHandlerCompleted { decision, .. } => {
            ContentRef::Payload(&decision.content)
        },
        DriverOccurrence::RecoveryHandlerExecutionFailed { cause, .. } => {
            ContentRef::Payload(cause)
        },
        DriverOccurrence::StepQuiesced { .. } => ContentRef::Nothing,
    }
}

/// Whether an output is in both of two maps with the same content.
spec fn agree(
    left: Map<Seq<char>, Seq<u8>>,
    right: Map<Seq<char>, Seq<u8>>,
    name: Seq<char>,
) -> bool {
    left.dom().contains(name) && right.dom().contains(name) && left[name] == right[name]
}

/// Whether every output is among others with the same content.
fn are_outputs_among(outputs: &NamedValues<Vec<u8>>, others: &NamedValues<Vec<u8>>) -> (among: bool)
    ensures
        among == forall|name: Seq<char>|
            output_contents(*outputs).dom().contains(name) ==> #[trigger] agree(
                output_contents(*outputs),
                output_contents(*others),
                name,
            ),
{
    let names: Vec<String> = outputs.names();
    let ghost listed = texts(names@);
    let ghost left = output_contents(*outputs);
    let ghost right = output_contents(*others);
    let mut index: usize = 0;
    while index < names.len()
        invariant
            index <= names@.len(),
            listed == texts(names@),
            left == output_contents(*outputs),
            right == output_contents(*others),
            forall|name: Seq<char>| #[trigger]
                listed.contains(name) <==> outputs.contents().dom().contains(name),
            forall|i: int| 0 <= i < index ==> agree(left, right, #[trigger] listed[i]),
        decreases names@.len() - index,
    {
        let name: &str = names[index].as_str();
        assert(listed[index as int] == name@);
        assert(listed.contains(name@));
        let same: bool = match (outputs.get(name), others.get(name)) {
            (Some(content), Some(other)) => bytes_equal(content.as_slice(), other.as_slice()),
            _ => false,
        };
        assert(same == agree(left, right, name@));
        if !same {
            assert(left.dom().contains(name@));
            return false;
        }
        index = index + 1;
    }
    assert forall|name: Seq<char>| left.dom().contains(name) implies #[trigger] agree(
        left,
        right,
        name,
    ) by {
        assert(listed.contains(name));
        let i = choose|i: int| 0 <= i < listed.len() && listed[i] == name;
        assert(agree(left, right, listed[i]));
    }
    true
}

/// Whether two maps of outputs are the same.
fn same_outputs(left: &NamedValues<Vec<u8>>, right: &NamedValues<Vec<u8>>) -> (same: bool)
    ensures
        same == (output_contents(*left) == output_contents(*right)),
{
    let ghost ours = output_contents(*left);
    let ghost others = output_contents(*right);
    let same: bool = are_outputs_among(left, right) && are_outputs_among(right, left);
    proof {
        if same {
            assert forall|name: Seq<char>| ours.dom().contains(name) <==> others.dom().contains(
                name,
            ) by {
                assert(ours.dom().contains(name) ==> agree(ours, others, name));
                assert(others.dom().contains(name) ==> agree(others, ours, name));
            }
            assert forall|name: Seq<char>| ours.dom().contains(name) implies ours[name]
                == others[name] by {
                assert(agree(ours, others, name));
            }
            assert(ours =~= others);
        }
    }
    same
}

/// Whether two occurrences are the same in all that they tell.
pub fn same_occurrence(left: &RecordedOccurrence, right: &RecordedOccurrence) -> (same: bool)
    ensures
        same == (occurrence_model(*left) == occurrence_model(*right)),
{
    if left.identity() != right.identity() || !text_equal(
        step_of(left).as_str(),
        step_of(right).as_str(),
    ) {
        return false;
    }
    match (content_of(left), content_of(right)) {
        (ContentRef::Nothing, ContentRef::Nothing) => true,
        (ContentRef::Payload(left), ContentRef::Payload(right)) => bytes_equal(
            left.as_slice(),
            right.as_slice(),
        ),
        (ContentRef::Outputs(left), ContentRef::Outputs(right)) => same_outputs(left, right),
        _ => false,
    }
}

/// What asking an adapter for a kind of action is recorded as.
#[derive(Clone, Copy, Debug, PartialEq, Eq, Structural)]
pub enum CommittedActionKind {
    StartStep,
    StartRecoveryHandler,
    CaptureOutputs,
    CancelStep,
    ForceAbortStep,
    FinishRun,
}

/// What is recorded of an action that a run asks for.
#[derive(Debug, PartialEq, Eq)]
pub struct CommittedAction {
    pub id: ActionId,
    pub kind: CommittedActionKind,
    pub step: Option<String>,
    pub execution_number: Option<TargetExecutionNumber>,
    pub recovery_round: Option<RecoveryRoundNumber>,
}

/// What is recorded of an action, by the text that names its step.
pub struct CommittedActionModel {
    pub id: ActionId,
    pub kind: CommittedActionKind,
    pub step: Option<Seq<char>>,
    pub execution_number: Option<TargetExecutionNumber>,
    pub recovery_round: Option<RecoveryRoundNumber>,
}

impl View for CommittedAction {
    type V = CommittedActionModel;

    open spec fn view(&self) -> CommittedActionModel {
        CommittedActionModel {
            id: self.id,
            kind: self.kind,
            step: match &self.step {
                Some(step) => Some(step@),
                None => None,
            },
            execution_number: self.execution_number,
            recovery_round: self.recovery_round,
        }
    }
}

/// What is recorded of an action.
pub open spec fn committed_model(requested: RequestedAction) -> CommittedActionModel {
    let (kind, step, execution_number, recovery_round) = match requested.action {
        Action::StartStep { step, execution_number } => (
            CommittedActionKind::StartStep,
            Some(step@),
            Some(execution_number),
            None,
        ),
        Action::StartRecoveryHandler { step, round } => (
            CommittedActionKind::StartRecoveryHandler,
            Some(step@),
            None,
            Some(round),
        ),
        Action::CaptureOutputs { step } => (
            CommittedActionKind::CaptureOutputs,
            Some(step@),
            None,
            None,
        ),
        Action::CancelStep { step } => (CommittedActionKind::CancelStep, Some(step@), None, None),
        Action::ForceAbortStep { step } => (
            CommittedActionKind::ForceAbortStep,
            Some(step@),
            None,
            None,
        ),
        Action::FinishRun => (CommittedActionKind::FinishRun, None, None, None),
    };
    CommittedActionModel { id: requested.id, kind, step, execution_number, recovery_round }
}

/// What is recorded of an action.
pub fn committed_action(requested: &RequestedAction) -> (committed: CommittedAction)
    ensures
        committed@ == committed_model(*requested),
{
    match &requested.action {
        Action::StartStep { step, execution_number } => CommittedAction {
            id: requested.id,
            kind: CommittedActionKind::StartStep,
            step: Some(step.clone()),
            execution_number: Some(*execution_number),
            recovery_round: None,
        },
        Action::StartRecoveryHandler { step, round } => CommittedAction {
            id: requested.id,
            kind: CommittedActionKind::StartRecoveryHandler,
            step: Some(step.clone()),
            execution_number: None,
            recovery_round: Some(*round),
        },
        Action::CaptureOutputs { step } => CommittedAction {
            id: requested.id,
            kind: CommittedActionKind::CaptureOutputs,
            step: Some(step.clone()),
            execution_number: None,
            recovery_round: None,
        },
        Action::CancelStep { step } => CommittedAction {
            id: requested.id,
            kind: CommittedActionKind::CancelStep,
            step: Some(step.clone()),
            execution_number: None,
            recovery_round: None,
        },
        Action::ForceAbortStep { step } => CommittedAction {
            id: requested.id,
            kind: CommittedActionKind::ForceAbortStep,
            step: Some(step.clone()),
            execution_number: None,
            recovery_round: None,
        },
        Action::FinishRun => CommittedAction {
            id: requested.id,
            kind: CommittedActionKind::FinishRun,
            step: None,
            execution_number: None,
            recovery_round: None,
        },
    }
}

/// What is recorded of actions, in their order.
pub fn committed_actions(requested: &Vec<RequestedAction>) -> (committed: Vec<CommittedAction>)
    ensures
        committed@.len() == requested@.len(),
        forall|i: int|
            0 <= i < committed@.len() ==> (#[trigger] committed@[i])@ == committed_model(
                requested@[i],
            ),
{
    let mut committed: Vec<CommittedAction> = Vec::new();
    let mut index: usize = 0;
    while index < requested.len()
        invariant
            index <= requested@.len(),
            committed@.len() == index,
            forall|i: int|
                0 <= i < index ==> (#[trigger] committed@[i])@ == committed_model(requested@[i]),
        decreases requested@.len() - index,
    {
        committed.push(committed_action(&requested[index]));
        index = index + 1;
    }
    committed
}

/// Why coordinating a run failed.
#[derive(Clone, Copy, Debug, PartialEq, Eq, Structural)]
pub enum CoordinationError {
    ArtifactStagingMismatch,
    InputStagingMismatch,
    AgentInputStagingMismatch,
    AgentRuntimeUnavailable,
    CommitFailed,
    OccurrenceChannelClosed,
    OccurrenceConflict,
    OccurrenceIdentityCapacityExceeded,
    OccurrenceOrdinalExhausted,
    ReducerStateUnavailable,
    RunnerRecoveryExecutionGuardActive,
    TransitionCapacityExceeded,
}

/// What a cancellation becomes when it is taken at the time `now`: a graceful one
/// has until the end of the grace period, a force abort is due at once.
pub open spec fn cancellation_form(operation: CancellationOperation, now: int, grace: int) -> (
    u64,
    Option<CancellationReason>,
    int,
) {
    match operation {
        CancellationOperation::Graceful { id, reason } => (id, Some(reason), now + grace),
        CancellationOperation::ForceAbort { id } => (id, None, now),
    }
}

/// The occurrence that a cancellation becomes when it is taken at the time `now`.
pub fn cancellation_occurrence<P, C, O>(
    operation: CancellationOperation,
    now: u64,
    grace: u64,
) -> (occurrence: Occurrence<P, C, O>)
    requires
        now + grace <= u64::MAX,
    ensures
        match cancellation_form(operation, now as int, grace as int) {
            (id, Some(reason), deadline) => occurrence == (Occurrence::<
                P,
                C,
                O,
            >::CancellationOperationRequested { operation: id, reason, deadline: deadline as u64 }),
            (id, None, deadline) => occurrence == (Occurrence::<P, C, O>::ForceAbortRequested {
                operation: id,
                deadline: deadline as u64,
            }),
        },
{
    match operation {
        CancellationOperation::Graceful { id, reason } => {
            Occurrence::CancellationOperationRequested {
                operation: id,
                reason,
                deadline: now + grace,
            }
        },
        CancellationOperation::ForceAbort { id } => Occurrence::ForceAbortRequested {
            operation: id,
            deadline: now,
        },
    }
}

/// A cancellation that a run starts with.
#[derive(Clone, Copy, Debug, PartialEq, Eq, Structural)]
pub struct InitialCancellation {
    pub operation: u64,
    pub reason: CancellationReason,
}

/// The cancellation that a run starts with: one that was requested before, if it
/// is graceful.
pub open spec fn initial_form(operation: Option<CancellationOperation>) -> Option<
    InitialCancellation,
> {
    match operation {
        Some(CancellationOperation::Graceful { id, reason }) => Some(
            InitialCancellation { operation: id, reason },
        ),
        _ => None,
    }
}

/// The cancellation that a run starts with.
pub fn initial_cancellation(operation: Option<CancellationOperation>) -> (initial: Option<
    InitialCancellation,
>)
    ensures
        initial == initial_form(operation),
{
    match operation {
        Some(CancellationOperation::Graceful { id, reason }) => Some(
            InitialCancellation { operation: id, reason },
        ),
        _ => None,
    }
}

/// A cancellation that a run starts with, and until when its steps may go on.
#[derive(Clone, Copy, Debug, PartialEq, Eq, Structural)]
pub struct CancellationRequest {
    pub reason: CancellationReason,
    pub deadline: u64,
}

/// What a cancellation that a run starts with becomes when it is taken at the time
/// `now`.
pub fn initial_request(initial: InitialCancellation, now: u64, grace: u64) -> (request:
    CancellationRequest)
    requires
        now + grace <= u64::MAX,
    ensures
        request.reason == initial.reason,
        request.deadline == now + grace,
{
    CancellationRequest { reason: initial.reason, deadline: now + grace }
}

/// How a driver handed an occurrence over.
#[derive(Clone, Copy, Debug, PartialEq, Eq, Structural)]
pub enum Delivery {
    /// It can be taken at once.
    Ready,
    /// It can be taken at once, and the driver waits for the decision.
    Acknowledged,
    /// The driver will settle it first; `observed` tells whether it still waits
    /// to hear that the claim was seen.
    Claimed { observed: bool },
}

/// What is taken up next.
#[derive(Debug)]
pub enum CoordinatorEvent {
    /// The run begins, perhaps with a cancellation that was requested before.
    Started { operation: Option<CancellationOperation> },
    /// No cancellation can be requested any more.
    CancellationClosed,
    /// Cancellations changed; the next one that has not been taken, if any.
    CancellationPolled { operation: Option<CancellationOperation> },
    /// No occurrence can be handed over any more.
    OccurrencesClosed,
    /// An occurrence was handed over while `pending` was the next cancellation
    /// that had not been taken.
    Delivered { pending: Option<CancellationOperation>, delivery: Delivery },
    /// The occurrence that was handed over, settled.
    Resolved { occurrence: RecordedOccurrence },
    /// A claimed occurrence was given up. `requires_release` tells whether what its
    /// execution left behind has to be released.
    Discarded { occurrence: RecordedOccurrence, requires_release: bool },
    /// What committing the effect of an occurrence came to.
    Committed { succeeded: bool, terminal: bool, capacity_exceeded: bool },
}

/// What a coordinator does next.
#[derive(Debug, PartialEq, Eq)]
pub enum CoordinatorAction {
    /// Set the run up and commit that.
    Initialize { cancellation: Option<InitialCancellation>, ordinal: OccurrenceOrdinal },
    /// Wait for the next event.
    Wait,
    /// Apply a cancellation and commit its effect. An occurrence that was handed
    /// over meanwhile is kept for later.
    ReduceCancellation {
        operation: CancellationOperation,
        retain_delivery: bool,
        ordinal: OccurrenceOrdinal,
    },
    /// Settle the occurrence that was handed over.
    Resolve { claimed: bool },
    /// Release what the execution of a given-up occurrence left behind, then wait.
    ReleaseStepResources { provisional: Vec<u8> },
    /// Apply an occurrence, or only note that it came again, and commit that.
    ReduceOccurrence { exact_replay: bool, ordinal: OccurrenceOrdinal },
    /// Hand back what the run has come to.
    Finish { ordinal: OccurrenceOrdinal },
    /// Give up.
    Fail { error: CoordinationError },
}

/// Where a coordinator stands.
#[derive(Clone, Copy, Debug, PartialEq, Eq, Structural)]
pub enum CoordinatorPhase {
    Created,
    Waiting,
    Resolving { ordinal_assigned: bool },
    Committing,
    Ended,
}

/// What a coordinator remembers.
#[verifier::ext_equal]
pub struct CoordinatorModel {
    pub phase: CoordinatorPhase,
    pub ordinal: int,
    pub capacity: int,
    pub observed: Seq<OccurrenceModel>,
}

/// The remembered occurrence of that identity.
pub open spec fn remembered(
    observed: Seq<OccurrenceModel>,
    identity: DriverOccurrenceIdentity,
) -> Option<OccurrenceModel>
    decreases observed.len(),
{
    if observed.len() == 0 {
        None
    } else if observed.last().identity == identity {
        Some(observed.last())
    } else {
        remembered(observed.drop_last(), identity)
    }
}

/// What a coordinator does next, with the place that it gives an occurrence.
pub enum ActionModel {
    Initialize(Option<InitialCancellation>, int),
    Wait,
    ReduceCancellation(CancellationOperation, bool, int),
    Resolve(bool),
    ReleaseStepResources(Seq<u8>),
    ReduceOccurrence(bool, int),
    Finish(int),
    Fail(CoordinationError),
}

impl CoordinatorAction {
    /// The action, with the place that it gives an occurrence.
    pub open spec fn model(self) -> ActionModel {
        match self {
            CoordinatorAction::Initialize { cancellation, ordinal } => ActionModel::Initialize(
                cancellation,
                ordinal.position(),
            ),
            CoordinatorAction::Wait => ActionModel::Wait,
            CoordinatorAction::ReduceCancellation {
                operation,
                retain_delivery,
                ordinal,
            } => ActionModel::ReduceCancellation(operation, retain_delivery, ordinal.position()),
            CoordinatorAction::Resolve { claimed } => ActionModel::Resolve(claimed),
            CoordinatorAction::ReleaseStepResources {
                provisional,
            } => ActionModel::ReleaseStepResources(provisional@),
            CoordinatorAction::ReduceOccurrence {
                exact_replay,
                ordinal,
            } => ActionModel::ReduceOccurrence(exact_replay, ordinal.position()),
            CoordinatorAction::Finish { ordinal } => ActionModel::Finish(ordinal.position()),
            CoordinatorAction::Fail { error } => ActionModel::Fail(error),
        }
    }
}

impl CoordinatorModel {
    /// With the next place taken and an occurrence's effect to be committed.
    pub open spec fn taking_next(self) -> CoordinatorModel {
        CoordinatorModel {
            phase: CoordinatorPhase::Committing,
            ordinal: self.ordinal + 1,
            ..self
        }
    }

    /// Having given up.
    pub open spec fn ended(self) -> CoordinatorModel {
        CoordinatorModel { phase: CoordinatorPhase::Ended, ..self }
    }

    /// Waiting for the next event.
    pub open spec fn waiting(self) -> CoordinatorModel {
        CoordinatorModel { phase: CoordinatorPhase::Waiting, ..self }
    }

    /// Gives up for that reason.
    pub open spec fn failing(self, error: CoordinationError) -> (CoordinatorModel, ActionModel) {
        (self.ended(), ActionModel::Fail(error))
    }

    /// Takes a cancellation.
    pub open spec fn cancelling(self, operation: CancellationOperation, retain: bool) -> (
        CoordinatorModel,
        ActionModel,
    ) {
        if self.ordinal == u64::MAX {
            self.failing(CoordinationError::OccurrenceOrdinalExhausted)
        } else {
            (
                self.taking_next(),
                ActionModel::ReduceCancellation(operation, retain, self.ordinal + 1),
            )
        }
    }

    /// Takes a settled occurrence. One that came before in all that it tells is a
    /// replay; one of the same identity that tells something else is a conflict.
    pub open spec fn resolving(self, occurrence: OccurrenceModel, ordinal_assigned: bool) -> (
        CoordinatorModel,
        ActionModel,
    ) {
        let known = remembered(self.observed, occurrence.identity);
        let next = if ordinal_assigned {
            self.ordinal
        } else {
            self.ordinal + 1
        };
        if known is Some && known != Some(occurrence) {
            self.failing(CoordinationError::OccurrenceConflict)
        } else if known is None && self.observed.len() >= self.capacity {
            self.failing(CoordinationError::OccurrenceIdentityCapacityExceeded)
        } else if next > u64::MAX {
            self.failing(CoordinationError::OccurrenceOrdinalExhausted)
        } else {
            (
                CoordinatorModel {
                    phase: CoordinatorPhase::Committing,
                    ordinal: next,
                    observed: if known is Some {
                        self.observed
                    } else {
                        self.observed.push(occurrence)
                    },
                    ..self
                },
                ActionModel::ReduceOccurrence(known is Some, next),
            )
        }
    }
}

/// Whether an event can come where the coordinator stands.
pub open spec fn expected(phase: CoordinatorPhase, event: CoordinatorEvent) -> bool {
    match event {
        CoordinatorEvent::Started { .. } => phase == CoordinatorPhase::Created,
        CoordinatorEvent::CancellationClosed => phase == CoordinatorPhase::Waiting,
        CoordinatorEvent::CancellationPolled { .. } => phase == CoordinatorPhase::Waiting,
        CoordinatorEvent::OccurrencesClosed => phase == CoordinatorPhase::Waiting,
        CoordinatorEvent::Delivered { .. } => phase == CoordinatorPhase::Waiting,
        CoordinatorEvent::Resolved { .. } => phase is Resolving,
        CoordinatorEvent::Discarded { .. } => phase == (CoordinatorPhase::Resolving {
            ordinal_assigned: false,
        }),
        CoordinatorEvent::Committed { .. } => phase == CoordinatorPhase::Committing,
    }
}

/// What is done about an occurrence that was given up: what a completed execution
/// left behind is released, where it has to be.
pub open spec fn discarding(occurrence: RecordedOccurrence, requires_release: bool) -> ActionModel {
    match occurrence {
        DriverOccurrence::StepExecutionCompleted { provisional, .. } => if requires_release {
            ActionModel::ReleaseStepResources(provisional@)
        } else {
            ActionModel::Wait
        },
        _ => ActionModel::Wait,
    }
}

/// What follows an event: where the coordinator stands then, and what it does.
pub open spec fn following(model: CoordinatorModel, event: CoordinatorEvent) -> (
    CoordinatorModel,
    ActionModel,
) {
    match event {
        CoordinatorEvent::Started { operation } => if model.ordinal == u64::MAX {
            model.failing(CoordinationError::OccurrenceOrdinalExhausted)
        } else {
            (
                model.taking_next(),
                ActionModel::Initialize(initial_form(operation), model.ordinal + 1),
            )
        },
        CoordinatorEvent::CancellationClosed => model.failing(
            CoordinationError::OccurrenceChannelClosed,
        ),
        CoordinatorEvent::OccurrencesClosed => model.failing(
            CoordinationError::OccurrenceChannelClosed,
        ),
        CoordinatorEvent::CancellationPolled { operation } => match operation {
            None => (model, ActionModel::Wait),
            Some(operation) => model.cancelling(operation, false),
        },
        CoordinatorEvent::Delivered { pending: Some(operation), delivery: _ } => model.cancelling(
            operation,
            true,
        ),
        CoordinatorEvent::Delivered { pending: None, delivery } => match delivery {
            Delivery::Claimed { observed } => if observed {
                (
                    CoordinatorModel {
                        phase: CoordinatorPhase::Resolving { ordinal_assigned: false },
                        ..model
                    },
                    ActionModel::Resolve(true),
                )
            } else {
                (model, ActionModel::Wait)
            },
            _ => if model.ordinal == u64::MAX {
                model.failing(CoordinationError::OccurrenceOrdinalExhausted)
            } else {
                (
                    CoordinatorModel {
                        phase: CoordinatorPhase::Resolving { ordinal_assigned: true },
                        ordinal: model.ordinal + 1,
                        ..model
                    },
                    ActionModel::Resolve(false),
                )
            },
        },
        CoordinatorEvent::Resolved { occurrence } => model.resolving(
            occurrence_model(occurrence),
            model.phase->ordinal_assigned,
        ),
        CoordinatorEvent::Discarded { occurrence, requires_release } => (
            model.waiting(),
            discarding(occurrence, requires_release),
        ),
        CoordinatorEvent::Committed {
            succeeded,
            terminal,
            capacity_exceeded,
        } => if !succeeded {
            model.failing(CoordinationError::CommitFailed)
        } else if capacity_exceeded {
            model.failing(CoordinationError::TransitionCapacityExceeded)
        } else if terminal {
            (model.ended(), ActionModel::Finish(model.ordinal))
        } else {
            (model.waiting(), ActionModel::Wait)
        },
    }
}

/// Decides, event by event, what a run takes up and in which order.
pub struct Coordinator {
    phase: CoordinatorPhase,
    ordinal: OccurrenceOrdinal,
    capacity: u64,
    observed: Vec<RecordedOccurrence>,
}

/// The models of recorded occurrences.
pub open spec fn observed_models(observed: Seq<RecordedOccurrence>) -> Seq<OccurrenceModel> {
    observed.map_values(|occurrence: RecordedOccurrence| occurrence_model(occurrence))
}

impl View for Coordinator {
    type V = CoordinatorModel;

    closed spec fn view(&self) -> CoordinatorModel {
        CoordinatorModel {
            phase: self.phase,
            ordinal: self.ordinal.position(),
            capacity: self.capacity as int,
            observed: observed_models(self.observed@),
        }
    }
}

impl Coordinator {
    /// A coordinator that remembers at most `capacity` occurrences.
    pub fn new(capacity: u64) -> (coordinator: Coordinator)
        ensures
            coordinator@ == (CoordinatorModel {
                phase: CoordinatorPhase::Created,
                ordinal: 0,
                capacity: capacity as int,
                observed: Seq::empty(),
            }),
    {
        let coordinator = Coordinator {
            phase: CoordinatorPhase::Created,
            ordinal: OccurrenceOrdinal::origin(),
            capacity,
            observed: Vec::new(),
        };
        assert(coordinator@.observed =~= Seq::empty());
        coordinator
    }

    /// Where the coordinator stands.
    pub fn phase(&self) -> (phase: CoordinatorPhase)
        ensures
            phase == self@.phase,
    {
        self.phase
    }

    fn fail(&mut self, error: CoordinationError) -> (action: CoordinatorAction)
        ensures
            (final(self)@, action.model()) == old(self)@.failing(error),
    {
        self.phase = CoordinatorPhase::Ended;
        CoordinatorAction::Fail { error }
    }

    fn cancel(&mut self, operation: CancellationOperation, retain_delivery: bool) -> (action:
        CoordinatorAction)
        ensures
            (final(self)@, action.model()) == old(self)@.cancelling(operation, retain_delivery),
    {
        match self.ordinal.next() {
            None => self.fail(CoordinationError::OccurrenceOrdinalExhausted),
            Some(ordinal) => {
                self.ordinal = ordinal;
                self.phase = CoordinatorPhase::Committing;
                CoordinatorAction::ReduceCancellation { operation, retain_delivery, ordinal }
            },
        }
    }

    /// Finds the remembered occurrence of the same identity, and whether it is
    /// the same in all that it tells.
    fn recall(&self, occurrence: &RecordedOccurrence) -> (same: Option<bool>)
        ensures
            match remembered(self@.observed, occurrence.identified()) {
                Some(known) => same == Some(known == occurrence_model(*occurrence)),
                None => same is None,
            },
    {
        let identity: DriverOccurrenceIdentity = occurrence.identity();
        let mut remaining: usize = self.observed.len();
        let ghost models = self@.observed;
        assert(models.take(remaining as int) =~= models);
        while remaining > 0
            invariant
                remaining <= self.observed@.len(),
                models == observed_models(self.observed@),
                models == self@.observed,
                identity == occurrence.identified(),
                remembered(models, identity) == remembered(
                    models.take(remaining as int),
                    identity,
                ),
            decreases remaining,
        {
            proof {
                let known = models.take(remaining as int);
                assert(known.drop_last() =~= models.take(remaining - 1));
                assert(known.last() == occurrence_model(self.observed@[remaining - 1]));
            }
            remaining = remaining - 1;
            if self.observed[remaining].identity() == identity {
                return Some(same_occurrence(&self.observed[remaining], occurrence));
            }
        }
        None
    }

    fn resolve(&mut self, occurrence: RecordedOccurrence, ordinal_assigned: bool) -> (action:
        CoordinatorAction)
        ensures
            (final(self)@, action.model()) == old(self)@.resolving(
                occurrence_model(occurrence),
                ordinal_assigned,
            ),
    {
        let recalled: Option<bool> = self.recall(&occurrence);
        let exact_replay: bool = match recalled {
            Some(same) => {
                if !same {
                    return self.fail(CoordinationError::OccurrenceConflict);
                }
                true
            },
            None => {
                if self.observed.len() as u64 >= self.capacity {
                    return self.fail(CoordinationError::OccurrenceIdentityCapacityExceeded);
                }
                false
            },
        };
        let ordinal: OccurrenceOrdinal = if ordinal_assigned {
            self.ordinal
        } else {
            match self.ordinal.next() {
                Some(ordinal) => ordinal,
                None => {
                    return self.fail(CoordinationError::OccurrenceOrdinalExhausted);
                },
            }
        };
        if !exact_replay {
            let ghost before = self.observed@;
            self.observed.push(occurrence);
            assert(observed_models(self.observed@) =~= observed_models(before).push(
                occurrence_model(occurrence),
            ));
        }
        self.ordinal = ordinal;
        self.phase = CoordinatorPhase::Committing;
        CoordinatorAction::ReduceOccurrence { exact_replay, ordinal }
    }

    /// Takes up an event.
    pub fn advance(&mut self, event: CoordinatorEvent) -> (action: CoordinatorAction)
        requires
            expected(old(self)@.phase, event),
        ensures
            (final(self)@, action.model()) == following(old(self)@, event),
    {
        match event {
            CoordinatorEvent::Started { operation } => match self.ordinal.next() {
                None => self.fail(CoordinationError::OccurrenceOrdinalExhausted),
                Some(ordinal) => {
                    self.ordinal = ordinal;
                    self.phase = CoordinatorPhase::Committing;
                    CoordinatorAction::Initialize {
                        cancellation: initial_cancellation(operation),
                        ordinal,
                    }
                },
            },
            CoordinatorEvent::CancellationClosed => self.fail(
                CoordinationError::OccurrenceChannelClosed,
            ),
            CoordinatorEvent::OccurrencesClosed => self.fail(
                CoordinationError::OccurrenceChannelClosed,
            ),
            CoordinatorEvent::CancellationPolled { operation } => match operation {
                None => CoordinatorAction::Wait,
                Some(operation) => self.cancel(operation, false),
            },
            CoordinatorEvent::Delivered { pending: Some(operation), delivery: _ } => self.cancel(
                operation,
                true,
            ),
            CoordinatorEvent::Delivered { pending: None, delivery } => match delivery {
                Delivery::Claimed { observed } => if observed {
                    self.phase = CoordinatorPhase::Resolving { ordinal_assigned: false };
                    CoordinatorAction::Resolve { claimed: true }
                } else {
                    CoordinatorAction::Wait
                },
                _ => match self.ordinal.next() {
                    None => self.fail(CoordinationError::OccurrenceOrdinalExhausted),
                    Some(ordinal) => {
                        self.ordinal = ordinal;
                        self.phase = CoordinatorPhase::Resolving { ordinal_assigned: true };
                        CoordinatorAction::Resolve { claimed: false }
                    },
                },
            },
            CoordinatorEvent::Resolved { occurrence } => {
                let ordinal_assigned: bool = match self.phase {
                    CoordinatorPhase::Resolving { ordinal_assigned } => ordinal_assigned,
                    _ => false,
                };
                self.resolve(occurrence, ordinal_assigned)
            },
            CoordinatorEvent::Discarded { occurrence, requires_release } => {
                self.phase = CoordinatorPhase::Waiting;
                match occurrence {
                    DriverOccurrence::StepExecutionCompleted { provisional, .. } => {
                        if requires_release {
                            CoordinatorAction::ReleaseStepResources { provisional }
                        } else {
                            CoordinatorAction::Wait
                        }
                    },
                    _ => CoordinatorAction::Wait,
                }
            },
            CoordinatorEvent::Committed { succeeded, terminal, capacity_exceeded } => {
                if !succeeded {
                    self.fail(CoordinationError::CommitFailed)
                } else if capacity_exceeded {
                    self.fail(CoordinationError::TransitionCapacityExceeded)
                } else if terminal {
                    self.phase = CoordinatorPhase::Ended;
                    CoordinatorAction::Finish { ordinal: self.ordinal }
                } else {
                    self.phase = CoordinatorPhase::Waiting;
                    CoordinatorAction::Wait
                }
            },
        }
    }
}

/// What a commit reports of the run itself.
#[derive(Clone, Copy, Debug, PartialEq, Eq, Structural)]
pub enum CoordinationDiagnostic {
    /// The run may make no more transitions.
    TransitionCapacityExceeded,
}

/// The effect of an occurrence on a run.
#[derive(Debug)]
pub struct Reduction<S> {
    pub state: S,
    pub workflow: WorkflowState,
    pub events: Vec<TransitionEvent>,
    pub actions: Vec<RequestedAction>,
    pub occurrence_accepted: bool,
    pub capacity_exceeded: bool,
}

impl<S> Reduction<S> {
    /// Whether the run enters finalization.
    pub open spec fn enters_finalization(&self) -> bool {
        exists|i: int|
            0 <= i < self.events@.len() && (
            #[trigger] self.events@[i] matches TransitionEvent::Workflow { to } && to
                == WorkflowStateKind::Finalizing)
    }

    /// An occurrence that changes nothing: it is not accepted, nothing happens and
    /// nothing is asked for.
    pub fn inert(state: S, workflow: WorkflowState, capacity_exceeded: bool) -> (reduction: Self)
        ensures
            reduction.state == state,
            reduction.workflow == workflow,
            reduction.events@.len() == 0,
            reduction.actions@.len() == 0,
            !reduction.occurrence_accepted,
            reduction.capacity_exceeded == capacity_exceeded,
            !reduction.enters_finalization(),
    {
        Reduction {
            state,
            workflow,
            events: Vec::new(),
            actions: Vec::new(),
            occurrence_accepted: false,
            capacity_exceeded,
        }
    }

    /// What the commit of the effect reports of the run itself.
    pub fn diagnostic(&self) -> (diagnostic: Option<CoordinationDiagnostic>)
        ensures
            diagnostic == (if self.capacity_exceeded {
                Some(CoordinationDiagnostic::TransitionCapacityExceeded)
            } else {
                None
            }),
    {
        if self.capacity_exceeded {
            Some(CoordinationDiagnostic::TransitionCapacityExceeded)
        } else {
            None
        }
    }

    /// The effect of an occurrence that came again exactly: none. `None` where the
    /// occurrence is new and has an effect of its own.
    pub fn of_replay(exact_replay: bool, state: S, workflow: WorkflowState) -> (reduction: Option<
        Self,
    >)
        ensures
            match reduction {
                Some(reduction) => {
                    &&& exact_replay
                    &&& reduction.state == state
                    &&& reduction.workflow == workflow
                    &&& reduction.events@.len() == 0
                    &&& reduction.actions@.len() == 0
                    &&& !reduction.occurrence_accepted
                    &&& !reduction.capacity_exceeded
                },
                None => !exact_replay,
            },
    {
        if exact_replay {
            Some(Reduction::inert(state, workflow, false))
        } else {
            None
        }
    }

    /// Whether the run enters finalization.
    pub fn entered_finalization(&self) -> (entered: bool)
        ensures
            entered == self.enters_finalization(),
    {
        let mut index: usize = 0;
        while index < self.events.len()
            invariant
                index <= self.events@.len(),
                forall|i: int|
                    0 <= i < index ==> !(
                    #[trigger] self.events@[i] matches TransitionEvent::Workflow { to } && to
                        == WorkflowStateKind::Finalizing),
            decreases self.events@.len() - index,
        {
            if let TransitionEvent::Workflow { to } = &self.events[index] {
                if *to == WorkflowStateKind::Finalizing {
                    return true;
                }
            }
            index = index + 1;
        }
        false
    }
}

/// One thing to do once a commit was answered.
#[derive(Clone, Copy, Debug, PartialEq, Eq, Structural)]
pub enum CommitEffect {
    /// Keep the new state.
    StoreState,
    /// Take back what entering finalization had prepared.
    AbortFinalizationArm,
    /// Make good what entering finalization had prepared.
    CompleteFinalizationArm,
    /// Tell the driver the decision, and wait until it has settled.
    Acknowledge { accepted: bool },
    /// Let no further occurrence be handed over.
    CloseOccurrences,
    /// Have the action at that place done.
    Release { index: usize },
}

/// One effect, or none.
pub open spec fn effect_if(condition: bool, effect: CommitEffect) -> Seq<CommitEffect> {
    if condition {
        seq![effect]
    } else {
        Seq::empty()
    }
}

/// The release of every action, in order.
pub open spec fn releases(count: nat) -> Seq<CommitEffect> {
    Seq::new(count, |index: int| CommitEffect::Release { index: index as usize })
}

/// What to do once a commit was answered, in order. After a failed commit
/// nothing is kept and nothing is released.
pub open spec fn commit_plan(
    committed: bool,
    arm_started: bool,
    acknowledged: bool,
    accepted: bool,
    terminal: bool,
    actions: nat,
) -> Seq<CommitEffect> {
    if !committed {
        effect_if(arm_started, CommitEffect::AbortFinalizationArm)
    } else {
        seq![CommitEffect::StoreState] + effect_if(
            arm_started,
            CommitEffect::CompleteFinalizationArm,
        ) + effect_if(acknowledged, CommitEffect::Acknowledge { accepted }) + effect_if(
            terminal,
            CommitEffect::CloseOccurrences,
        ) + releases(actions)
    }
}

/// What to do once a commit was answered, in order.
pub fn commit_effects<S>(
    reduction: &Reduction<S>,
    committed: bool,
    arm_started: bool,
    acknowledged: bool,
) -> (effects: Vec<CommitEffect>)
    ensures
        effects@ == commit_plan(
            committed,
            arm_started,
            acknowledged,
            reduction.occurrence_accepted,
            reduction.workflow.terminal(),
            reduction.actions@.len(),
        ),
{
    let mut effects: Vec<CommitEffect> = Vec::new();
    if !committed {
        if arm_started {
            effects.push(CommitEffect::AbortFinalizationArm);
        }
        assert(effects@ =~= effect_if(arm_started, CommitEffect::AbortFinalizationArm));
        return effects;
    }
    effects.push(CommitEffect::StoreState);
    if arm_started {
        effects.push(CommitEffect::CompleteFinalizationArm);
    }
    if acknowledged {
        effects.push(CommitEffect::Acknowledge { accepted: reduction.occurrence_accepted });
    }
    let terminal: bool = reduction.workflow.is_terminal();
    if terminal {
        effects.push(CommitEffect::CloseOccurrences);
    }
    let ghost front = effects@;
    assert(front =~= seq![CommitEffect::StoreState] + effect_if(
        arm_started,
        CommitEffect::CompleteFinalizationArm,
    ) + effect_if(
        acknowledged,
        CommitEffect::Acknowledge { accepted: reduction.occurrence_accepted },
    ) + effect_if(terminal, CommitEffect::CloseOccurrences));
    let mut index: usize = 0;
    assert(front + releases(0) =~= front);
    while index < reduction.actions.len()
        invariant
            index <= reduction.actions@.len(),
            effects@ == front + releases(index as nat),
        decreases reduction.actions@.len() - index,
    {
        effects.push(CommitEffect::Release { index });
        assert(effects@ =~= front + releases((index + 1) as nat));
        index = index + 1;
    }
    effects
}

/// What a coordinated run hands back: its last state, and the place of its last
/// occurrence.
#[derive(Debug)]
pub struct CoordinationResult<S> {
    pub state: S,
    pub last_occurrence_ordinal: OccurrenceOrdinal,
}

/// Hands back the last committed state.
pub fn coordination_result<S>(
    state: Option<S>,
    last_occurrence_ordinal: OccurrenceOrdinal,
) -> (result: Result<CoordinationResult<S>, CoordinationError>)
    ensures
        match result {
            Ok(coordinated) => state == Some(coordinated.state)
                && coordinated.last_occurrence_ordinal == last_occurrence_ordinal,
            Err(error) => state is None && error == CoordinationError::ReducerStateUnavailable,
        },
{
    match state {
        Some(state) => Ok(CoordinationResult { state, last_occurrence_ordinal }),
        None => Err(CoordinationError::ReducerStateUnavailable),
    }
}

/// Passing an occurrence on to the run's state loses nothing of it.
pub proof fn law_runtime_form_is_faithful<P, C, O>(
    left: DriverOccurrence<P, C, O>,
    right: DriverOccurrence<P, C, O>,
)
    ensures
        left.runtime_form() == right.runtime_form() ==> left == right,
{
}

/// Every occurrence whose effect is committed gets the place behind the last
/// one, and no event takes a place back.
pub proof fn law_ordinals_only_advance(model: CoordinatorModel, event: CoordinatorEvent)
    requires
        expected(model.phase, event),
        model.ordinal <= u64::MAX,
    ensures
        ({
            let (next, action) = following(model, event);
            &&& model.ordinal <= next.ordinal <= model.ordinal + 1
            &&& next.ordinal <= u64::MAX
            &&& action matches ActionModel::Initialize(_, ordinal) ==> ordinal == next.ordinal
                && ordinal == model.ordinal + 1
            &&& action matches ActionModel::ReduceCancellation(_, _, ordinal) ==> ordinal
                == next.ordinal && ordinal == model.ordinal + 1
            &&& action matches ActionModel::ReduceOccurrence(_, ordinal) ==> ordinal
                == next.ordinal
            &&& action matches ActionModel::Finish(ordinal) ==> ordinal == next.ordinal
        }),
{
}

/// A cancellation that has not been taken precedes an occurrence that was handed
/// over, and the occurrence is kept for later.
pub proof fn law_cancellation_precedes_deliveries(
    model: CoordinatorModel,
    operation: CancellationOperation,
    delivery: Delivery,
)
    requires
        model.phase == CoordinatorPhase::Waiting,
        model.ordinal < u64::MAX,
    ensures
        following(model, CoordinatorEvent::Delivered { pending: Some(operation), delivery }).1
            == ActionModel::ReduceCancellation(operation, true, model.ordinal + 1),
{
}

/// A completed execution that was claimed and given up has what it left behind
/// released, and just that; nothing is remembered of it, it takes no place, and the
/// run goes on.
pub proof fn law_discarded_claims_release_their_resources(
    model: CoordinatorModel,
    step: String,
    action: ActionId,
    provisional: Vec<u8>,
)
    requires
        model.phase == (CoordinatorPhase::Resolving { ordinal_assigned: false }),
    ensures
        following(
            model,
            CoordinatorEvent::Discarded {
                occurrence: DriverOccurrence::StepExecutionCompleted { step, action, provisional },
                requires_release: true,
            },
        ) == (
            CoordinatorModel { phase: CoordinatorPhase::Waiting, ..model },
            ActionModel::ReleaseStepResources(provisional@),
        ),
{
}

/// Where a coordinator stands after some events.
pub open spec fn after_events(
    model: CoordinatorModel,
    events: Seq<CoordinatorEvent>,
) -> CoordinatorModel
    decreases events.len(),
{
    if events.len() == 0 {
        model
    } else {
        following(after_events(model, events.drop_last()), events.last()).0
    }
}

/// Whether each of some events can come where the coordinator stands then.
pub open spec fn all_expected(model: CoordinatorModel, events: Seq<CoordinatorEvent>) -> bool
    decreases events.len(),
{
    events.len() == 0 || (all_expected(model, events.drop_last()) && expected(
        after_events(model, events.drop_last()).phase,
        events.last(),
    ))
}

/// No event makes a coordinator forget an occurrence.
proof fn lemma_nothing_is_forgotten(
    model: CoordinatorModel,
    events: Seq<CoordinatorEvent>,
    known: OccurrenceModel,
)
    requires
        remembered(model.observed, known.identity) == Some(known),
    ensures
        remembered(after_events(model, events).observed, known.identity) == Some(known),
    decreases events.len(),
{
    if events.len() > 0 {
        lemma_nothing_is_forgotten(model, events.drop_last(), known);
        let before = after_events(model, events.drop_last());
        let next = after_events(model, events);
        if next.observed != before.observed {
            assert(next.observed.drop_last() =~= before.observed);
        }
    }
}

/// An occurrence that was taken is a replay when it comes again exactly, and a
/// conflict when it comes again telling something else, whatever came meanwhile.
/// Neither is remembered anew.
pub proof fn law_replays_and_conflicts(
    model: CoordinatorModel,
    first: OccurrenceModel,
    assigned: bool,
    events: Seq<CoordinatorEvent>,
    again: OccurrenceModel,
    assigned_again: bool,
)
    requires
        model.resolving(first, assigned).1 is ReduceOccurrence,
        all_expected(model.resolving(first, assigned).0, events),
        after_events(model.resolving(first, assigned).0, events).ordinal < u64::MAX,
        again.identity == first.identity,
    ensures
        ({
            let later = after_events(model.resolving(first, assigned).0, events);
            if again == first {
                later.resolving(again, assigned_again).1 matches ActionModel::ReduceOccurrence(
                    replay,
                    _,
                ) && replay && later.resolving(again, assigned_again).0.observed == later.observed
            } else {
                later.resolving(again, assigned_again).1 == ActionModel::Fail(
                    CoordinationError::OccurrenceConflict,
                )
            }
        }),
{
    let after = model.resolving(first, assigned).0;
    if remembered(model.observed, first.identity) is None {
        assert(after.observed.last() == first);
    }
    lemma_nothing_is_forgotten(after, events, first);
}

/// No more occurrences are remembered than the capacity admits.
pub proof fn law_memory_is_bounded(model: CoordinatorModel, event: CoordinatorEvent)
    requires
        expected(model.phase, event),
        model.observed.len() <= model.capacity,
    ensures
        following(model, event).0.observed.len() <= following(model, event).0.capacity,
        following(model, event).0.capacity == model.capacity,
{
}

/// An action is released only after a commit that succeeded, and only after the
/// new state was kept and the driver was told.
pub proof fn law_releases_follow_a_commit(
    committed: bool,
    arm_started: bool,
    acknowledged: bool,
    accepted: bool,
    terminal: bool,
    actions: nat,
    index: int,
)
    requires
        actions <= usize::MAX,
        0 <= index < commit_plan(
            committed,
            arm_started,
            acknowledged,
            accepted,
            terminal,
            actions,
        ).len(),
        commit_plan(
            committed,
            arm_started,
            acknowledged,
            accepted,
            terminal,
            actions,
        )[index] is Release,
    ensures
        committed,
        commit_plan(committed, arm_started, acknowledged, accepted, terminal, actions)[0]
            == CommitEffect::StoreState,
        acknowledged ==> exists|i: int|
            0 <= i < index && #[trigger] commit_plan(
                committed,
                arm_started,
                acknowledged,
                accepted,
                terminal,
                actions,
            )[i] == (CommitEffect::Acknowledge { accepted }),
{
    let plan = commit_plan(committed, arm_started, acknowledged, accepted, terminal, actions);
    if acknowledged {
        let place = if arm_started {
            2int
        } else {
            1int
        };
        if committed {
            assert(plan[place] == (CommitEffect::Acknowledge { accepted }));
            assert(index > place);
        }
    }
}

} // verus!

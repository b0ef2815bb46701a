//! What a workflow must satisfy to be served.

use vstd::prelude::*;

use crate::document::WorkflowDefinition;

verus! {

/// The largest accepted number of steps and finalizers together.
pub const MAXIMUM_WORKFLOW_NODES: usize = 256;

/// Why a workflow cannot be served.
#[derive(Clone, Copy, Debug, PartialEq, Eq, Structural)]
pub enum ServeWorkflowContractFailureKind {
    InvalidNodeCount,
}

/// A workflow cannot be served.
#[derive(Clone, Copy, Debug, PartialEq, Eq, Structural)]
pub struct ServeWorkflowContractFailure {
    kind: ServeWorkflowContractFailureKind,
}

impl ServeWorkflowContractFailure {
    /// Why the workflow cannot be served.
    pub closed spec fn reason(&self) -> ServeWorkflowContractFailureKind {
        self.kind
    }

    /// Why the workflow cannot be served.
    pub fn kind(&self) -> (kind: ServeWorkflowContractFailureKind)
        ensures
            kind == self.reason(),
    {
        self.kind
    }

    /// What is said of the refusal.
    pub open spec fn text(&self) -> Seq<char> {
        match self.reason() {
            ServeWorkflowContractFailureKind::InvalidNodeCount =>
                "serve workflow contract failure: InvalidNodeCount"@,
        }
    }

    /// What is said of the refusal.
    pub fn message(&self) -> (message: &'static str)
        ensures
            message@ == self.text(),
    {
        match self.kind {
            ServeWorkflowContractFailureKind::InvalidNodeCount =>
                "serve workflow contract failure: InvalidNodeCount",
        }
    }
}

/// Whether a workflow has at least one node and not too many.
pub open spec fn servable(workflow: WorkflowDefinition) -> bool {
    1 <= workflow.steps@.len() + workflow.finalizers@.len() <= MAXIMUM_WORKFLOW_NODES
}

/// Hands back a workflow that can be served.
pub fn require_serve_workflow(workflow: WorkflowDefinition) -> (outcome: Result<
    WorkflowDefinition,
    ServeWorkflowContractFailure,
>)
    ensures
        match outcome {
            Ok(accepted) => servable(workflow) && accepted == workflow,
            Err(refusal) => !servable(workflow) && refusal.reason()
                == ServeWorkflowContractFailureKind::InvalidNodeCount,
        },
{
    let node_count: usize = match workflow.steps.len().checked_add(workflow.finalizers.len()) {
        Some(node_count) => node_count,
        None => {
            return Err(failure(ServeWorkflowContractFailureKind::InvalidNodeCount));
        },
    };
    if node_count < 1 || node_count > MAXIMUM_WORKFLOW_NODES {
        return Err(failure(ServeWorkflowContractFailureKind::InvalidNodeCount));
    }
    Ok(workflow)
}

/// A refusal for that reason.
pub fn failure(kind: ServeWorkflowContractFailureKind) -> (refusal: ServeWorkflowContractFailure)
    ensures
        refusal.reason() == kind,
{
    ServeWorkflowContractFailure { kind }
}

} // verus!

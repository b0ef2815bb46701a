//! The parts of a workflow document that the engine decides by.

use vstd::prelude::*;

verus! {

/// How a run came to its finalizers.
#[derive(Clone, Copy, Debug, PartialEq, Eq, Structural)]
pub enum FinalizationTrigger {
    Succeeded,
    Failed,
    Cancelled,
}

impl FinalizationTrigger {
    /// The name of the trigger in documents and contexts.
    pub open spec fn name(self) -> Seq<char> {
        match self {
            FinalizationTrigger::Succeeded => "succeeded"@,
            FinalizationTrigger::Failed => "failed"@,
            FinalizationTrigger::Cancelled => "cancelled"@,
        }
    }

    /// Every trigger once, in order.
    pub fn all() -> (triggers: Vec<FinalizationTrigger>)
        ensures
            triggers@ == seq![
                FinalizationTrigger::Succeeded,
                FinalizationTrigger::Failed,
                FinalizationTrigger::Cancelled,
            ],
            forall|trigger: FinalizationTrigger| #[trigger] triggers@.contains(trigger),
    {
        let triggers: Vec<FinalizationTrigger> = vec![
            FinalizationTrigger::Succeeded,
            FinalizationTrigger::Failed,
            FinalizationTrigger::Cancelled,
        ];
        proof {
            assert forall|trigger: FinalizationTrigger| #[trigger] triggers@.contains(trigger) by {
                assert(triggers@[0] == FinalizationTrigger::Succeeded);
                assert(triggers@[1] == FinalizationTrigger::Failed);
                assert(triggers@[2] == FinalizationTrigger::Cancelled);
            }
        }
        triggers
    }

    /// The name of the trigger in documents and contexts.
    pub fn as_str(self) -> (name: &'static str)
        ensures
            name@ == self.name(),
    {
        match self {
            FinalizationTrigger::Succeeded => "succeeded",
            FinalizationTrigger::Failed => "failed",
            FinalizationTrigger::Cancelled => "cancelled",
        }
    }
}

/// Whether the failure of a node fails the run.
#[derive(Clone, Copy, Debug, PartialEq, Eq, Structural)]
pub enum FailurePolicy {
    Required,
    Advisory,
}

impl Default for FailurePolicy {
    fn default() -> (policy: Self)
        ensures
            policy == FailurePolicy::Required,
    {
        FailurePolicy::Required
    }
}

impl FailurePolicy {
    /// The name of the policy in documents and contexts.
    pub open spec fn name(self) -> Seq<char> {
        match self {
            FailurePolicy::Required => "required"@,
            FailurePolicy::Advisory => "advisory"@,
        }
    }

    /// The name of the policy in documents and contexts.
    pub fn as_str(self) -> (name: &'static str)
        ensures
            name@ == self.name(),
    {
        match self {
            FailurePolicy::Required => "required",
            FailurePolicy::Advisory => "advisory",
        }
    }
}

/// A reference to an output of a node.
#[derive(Debug, PartialEq, Eq)]
pub struct OutputReference {
    pub node: String,
    pub output: String,
}

/// A reference to a value that a node reads.
#[derive(Debug, PartialEq, Eq)]
pub enum ValueReference {
    Import { name: String },
    Output(OutputReference),
    FinalizationContext,
}

/// A step of a workflow, by its name and what it reads.
#[derive(Debug, PartialEq, Eq)]
pub struct StepDefinition {
    pub failure_policy: FailurePolicy,
    pub inputs: Vec<(String, ValueReference)>,
    pub control_dependencies: Vec<String>,
}

/// A finalizer of a workflow, by what it reads and when it runs.
#[derive(Debug, PartialEq, Eq)]
pub struct FinalizerDefinition {
    pub failure_policy: FailurePolicy,
    pub inputs: Vec<(String, ValueReference)>,
    pub after: Vec<String>,
    pub when: Vec<FinalizationTrigger>,
}

/// A workflow: its steps and finalizers by name, in the order of the document,
/// and what it exports.
#[derive(Debug, PartialEq, Eq)]
pub struct WorkflowDefinition {
    pub steps: Vec<(String, StepDefinition)>,
    pub finalizers: Vec<(String, FinalizerDefinition)>,
    pub exports: Vec<(String, OutputReference)>,
}

} // verus!

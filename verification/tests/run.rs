use workflow_engine::bytes::{bytes_equal, is_lowercase_hex, stands_before};
use workflow_engine::command_contract::{
    failure, require_serve_workflow, ServeWorkflowContractFailureKind, MAXIMUM_WORKFLOW_NODES,
};
use workflow_engine::document::{
    FailurePolicy, FinalizationTrigger, FinalizerDefinition, OutputReference, StepDefinition,
    ValueReference, WorkflowDefinition,
};
use workflow_engine::evidence::CancellationReason;
use workflow_engine::execution_root::{
    admit_root, bind_command_ref, contains_directory, executable_candidate, is_same_directory,
    pathname_is_bound, protocol_path, select_working_directory, working_directory_path,
    CandidateStatus, ContainmentAction, DirectoryIdentity, ExecutableCandidate,
    ExecutionRootAdmissionFailure, OpenedDirectory, SelectionAction, SelectionEvent,
    SelectionPhase, WorkingDirectorySelectionFailure,
};
use workflow_engine::finalization_context::{
    assemble_context, serialize, FinalizationContext, OrdinaryIssue, OrdinaryIssueDisposition,
};
use workflow_engine::force_abort_evidence::{
    finalization_cancellation_matches_force_phase, finalization_node_cancellation_matches,
    ordinary_node_cancellation_matches, FirstForceAbortPhase,
};
use workflow_engine::runtime::{ForceAbortPhaseV1, RunCancellationPhase};

#[test]
fn dedicated_serializer_preserves_the_context_abi_order() {
    let issues = [
        OrdinaryIssue {
            step_id: "zeta".to_owned(),
            failure_policy: FailurePolicy::Required,
            disposition: OrdinaryIssueDisposition::Blocked,
        },
        OrdinaryIssue {
            step_id: "lint".to_owned(),
            failure_policy: FailurePolicy::Advisory,
            disposition: OrdinaryIssueDisposition::Failed,
        },
    ];

    assert_eq!(
        serialize(FinalizationContext {
            trigger: FinalizationTrigger::Succeeded,
            primary_issue_step_id: None,
            cancellation_reason: None,
            ordinary_issues: &issues,
        })
        .as_slice(),
        br#"{"schemaVersion":1,"trigger":"succeeded","primaryIssueStepId":null,"cancellationReason":null,"ordinaryIssues":[{"stepId":"lint","failurePolicy":"advisory","disposition":"failed"},{"stepId":"zeta","failurePolicy":"required","disposition":"blocked"}]}"#
    );
}

#[test]
fn contexts_quote_their_texts() {
    let bytes = serialize(FinalizationContext {
        trigger: FinalizationTrigger::Failed,
        primary_issue_step_id: Some("a\"b"),
        cancellation_reason: Some("user_request"),
        ordinary_issues: &[],
    });
    assert_eq!(
        String::from_utf8(bytes).unwrap(),
        r#"{"schemaVersion":1,"trigger":"failed","primaryIssueStepId":"a\"b","cancellationReason":"user_request","ordinaryIssues":[]}"#
    );
}

fn step() -> StepDefinition {
    StepDefinition {
        failure_policy: FailurePolicy::Required,
        inputs: Vec::new(),
        control_dependencies: Vec::new(),
    }
}

fn workflow(steps: usize) -> WorkflowDefinition {
    WorkflowDefinition {
        steps: (0..steps)
            .map(|index| (format!("step{index}"), step()))
            .collect(),
        finalizers: Vec::new(),
        exports: Vec::new(),
    }
}

#[test]
fn accepts_supported_cloud_outputs() {
    let mut definition = workflow(1);
    definition.exports.push((
        "branch".to_owned(),
        OutputReference {
            node: "capture".to_owned(),
            output: "branch".to_owned(),
        },
    ));
    let accepted = require_serve_workflow(definition).unwrap();
    assert_eq!(accepted.exports.len(), 1);
}

#[test]
fn accepts_outputless_finalizers_and_engine_context() {
    let mut definition = workflow(1);
    definition.finalizers.push((
        "cleanup".to_owned(),
        FinalizerDefinition {
            failure_policy: FailurePolicy::Required,
            inputs: vec![("context".to_owned(), ValueReference::FinalizationContext)],
            after: Vec::new(),
            when: FinalizationTrigger::all(),
        },
    ));
    let accepted = require_serve_workflow(definition).unwrap();
    assert_eq!(accepted.steps.len(), 1);
    assert_eq!(accepted.finalizers.len(), 1);
}

#[test]
fn accepts_inputless_command_and_agent_nodes() {
    let accepted = require_serve_workflow(workflow(1)).unwrap();
    assert_eq!(accepted.steps.len(), 1);
}

#[test]
fn refuses_workflows_without_nodes_or_with_too_many() {
    assert!(require_serve_workflow(workflow(MAXIMUM_WORKFLOW_NODES)).is_ok());
    for count in [0, MAXIMUM_WORKFLOW_NODES + 1] {
        assert_eq!(
            require_serve_workflow(workflow(count)).err().unwrap().kind(),
            ServeWorkflowContractFailureKind::InvalidNodeCount
        );
    }
    assert_eq!(
        failure(ServeWorkflowContractFailureKind::InvalidNodeCount).message(),
        "serve workflow contract failure: InvalidNodeCount"
    );
}

#[test]
fn cancellations_agree_with_force_aborts() {
    let user = CancellationReason::UserRequest;
    let shutdown = CancellationReason::RunnerShutdown;
    let ordinary = Some(FirstForceAbortPhase::from(ForceAbortPhaseV1::Ordinary));
    let finalization = Some(FirstForceAbortPhase::from(
        RunCancellationPhase::Finalization,
    ));
    assert!(ordinary_node_cancellation_matches(user, Some(user), shutdown, None));
    assert!(ordinary_node_cancellation_matches(shutdown, Some(user), shutdown, ordinary));
    assert!(!ordinary_node_cancellation_matches(shutdown, Some(user), shutdown, finalization));
    assert!(finalization_node_cancellation_matches(shutdown, None, shutdown, true));
    assert!(!finalization_node_cancellation_matches(shutdown, None, shutdown, false));
    assert!(finalization_cancellation_matches_force_phase(None, shutdown, finalization));
    assert!(!finalization_cancellation_matches_force_phase(None, shutdown, ordinary));
    assert!(finalization_cancellation_matches_force_phase(
        Some(shutdown),
        shutdown,
        ordinary
    ));
}

fn directory(inode: u64) -> DirectoryIdentity {
    DirectoryIdentity { device: 1, inode }
}

fn contained(root: DirectoryIdentity, climb: &[DirectoryIdentity]) -> bool {
    let mut below = None;
    for reached in climb {
        match contains_directory(root, below, Some(*reached)) {
            ContainmentAction::Inside => return true,
            ContainmentAction::Outside => return false,
            ContainmentAction::OpenParent { reached } => below = Some(reached),
            ContainmentAction::Fail => panic!("every directory was identified"),
        }
    }
    panic!("the climb ends")
}

#[test]
fn working_directories_lie_below_the_root() {
    let climb = [directory(4), directory(3), directory(2), directory(2)];
    assert!(contained(directory(3), &climb));
    assert!(contained(directory(2), &climb));
    assert!(!contained(directory(9), &climb));
    assert_eq!(
        contains_directory(directory(1), None, None),
        ContainmentAction::Fail
    );
}

#[test]
fn selections_are_refused_for_their_reason() {
    for (phase, event, expected) in [
        (
            SelectionPhase::Binding,
            SelectionEvent::Bound { bound: false },
            WorkingDirectorySelectionFailure::ExecutionRootRebound,
        ),
        (
            SelectionPhase::Opening,
            SelectionEvent::OpenRefused {
                not_a_directory: true,
            },
            WorkingDirectorySelectionFailure::NotDirectory,
        ),
        (
            SelectionPhase::Opening,
            SelectionEvent::OpenRefused {
                not_a_directory: false,
            },
            WorkingDirectorySelectionFailure::Unavailable,
        ),
        (
            SelectionPhase::Containing,
            SelectionEvent::Contained { inside: false },
            WorkingDirectorySelectionFailure::EscapesExecutionRoot,
        ),
        (
            SelectionPhase::Containing,
            SelectionEvent::ContainmentUnknown,
            WorkingDirectorySelectionFailure::Unavailable,
        ),
    ] {
        assert_eq!(
            select_working_directory(phase, event),
            SelectionAction::Refuse { failure: expected }
        );
    }
    assert_eq!(
        select_working_directory(
            SelectionPhase::Containing,
            SelectionEvent::Contained { inside: true }
        ),
        SelectionAction::Select
    );
}

#[test]
fn roots_are_admitted_and_stay_bound() {
    let open = OpenedDirectory::Open {
        identity: Some(directory(1)),
    };
    assert_eq!(admit_root(true, open), Ok(directory(1)));
    assert_eq!(
        admit_root(false, open),
        Err(ExecutionRootAdmissionFailure::Unavailable)
    );
    assert_eq!(
        admit_root(
            true,
            OpenedDirectory::Refused {
                not_a_directory: true
            }
        ),
        Err(ExecutionRootAdmissionFailure::NotDirectory)
    );
    assert!(pathname_is_bound(directory(1), open));
    assert!(!pathname_is_bound(directory(2), open));
    assert!(is_same_directory(directory(1), directory(1)));
    assert_eq!(
        protocol_path(true, true, Some(directory(1)), Some(directory(1))),
        Ok(())
    );
    assert_eq!(
        protocol_path(true, true, Some(directory(1)), Some(directory(2))),
        Err(WorkingDirectorySelectionFailure::Unavailable)
    );
    assert_eq!(
        protocol_path(true, true, None, None),
        Err(WorkingDirectorySelectionFailure::Unavailable)
    );
    assert_eq!(
        protocol_path(false, true, Some(directory(1)), Some(directory(1))),
        Err(WorkingDirectorySelectionFailure::ExecutionRootRebound)
    );
    assert_eq!(
        bind_command_ref(true, false),
        Err(WorkingDirectorySelectionFailure::Unavailable)
    );
}

#[test]
fn working_directory_paths_are_taken_from_the_root() {
    assert_eq!(working_directory_path(b"/root", None), b"/root");
    assert_eq!(working_directory_path(b"/root", Some("a/b")), b"/root/a/b");
    assert_eq!(working_directory_path(b"/", Some("a")), b"/a");
    assert_eq!(working_directory_path(b"/root", Some("/abs")), b"/abs");
    assert_eq!(working_directory_path(b"/root", Some("")), b"/root/");
}

#[test]
fn programs_are_regular_files_that_may_be_executed() {
    let regular = CandidateStatus::Present { regular: true };
    assert_eq!(
        executable_candidate(regular, true),
        ExecutableCandidate::Executable
    );
    assert_eq!(
        executable_candidate(regular, false),
        ExecutableCandidate::Unavailable
    );
    assert_eq!(
        executable_candidate(CandidateStatus::Missing, false),
        ExecutableCandidate::Missing
    );
    assert_eq!(
        executable_candidate(CandidateStatus::Present { regular: false }, true),
        ExecutableCandidate::Unavailable
    );
}

#[test]
fn bytes_are_compared_in_order() {
    assert!(bytes_equal(b"ab", b"ab"));
    assert!(!bytes_equal(b"ab", b"abc"));
    assert!(stands_before(b"ab", b"abc"));
    assert!(stands_before(b"ab", b"b"));
    assert!(!stands_before(b"b", b"ab"));
    assert!(is_lowercase_hex("00ff", 4));
    assert!(!is_lowercase_hex("00fF", 4));
}

#[test]
fn contexts_are_assembled_from_quoted_texts() {
    let context = assemble_context(
        FinalizationTrigger::Cancelled,
        &Some("\"a\"".to_owned()),
        &None,
        &Vec::new(),
    );
    assert!(context.contains("\"primaryIssueStepId\":\"a\""));
}

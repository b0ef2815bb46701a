use workflow_engine::agent::{
    AgentFailure, AgentFailureCause, AgentHarnessFailureDetail, AgentHarnessSetupStage,
    AgentInputKind,
};
use workflow_engine::condition::{WorkflowNode, WorkflowNodeRole};
use workflow_engine::evidence::{
    agent_failure_detail, failure_detail, is_output_reference, is_workflow_node_identifier,
    is_workflow_value_identifier, BlockedDetail, CancellationDetail, CancellationReason,
    EvidenceError, FailureCode, FailureDetail, FailurePhase, NonExecutionCode, NonExecutionDetail,
    Prerequisite, PrerequisiteKind, PrimaryIssue, PrimaryIssueDetail, PrimaryIssueState,
    MAXIMUM_PREREQUISITES,
};
use workflow_engine::failure::StepFailureCause;

fn control(node: &str) -> Prerequisite {
    Prerequisite::Control {
        node: node.to_owned(),
    }
}

fn body(reference: &str) -> Prerequisite {
    Prerequisite::Body {
        reference: reference.to_owned(),
    }
}

#[test]
fn blocked_detail_deduplicates_and_sorts_exact_pairs() {
    let detail = BlockedDetail::new(vec![
        Prerequisite::body("outputs.z.value").unwrap(),
        Prerequisite::control("z").unwrap(),
        Prerequisite::body("outputs.a.value").unwrap(),
        Prerequisite::control("z").unwrap(),
    ])
    .unwrap();
    assert_eq!(
        detail.prerequisites,
        [
            control("z"),
            body("outputs.a.value"),
            body("outputs.z.value"),
        ]
    );
}

#[test]
fn failure_detail_rejects_cross_phase_auxiliary_and_unsafe_names() {
    for (phase, code, input, output, exit_code) in [
        (
            FailurePhase::Start,
            FailureCode::CommandExit,
            None,
            None,
            Some(1),
        ),
        (
            FailurePhase::Execution,
            FailureCode::CommandExit,
            None,
            Some("value"),
            None,
        ),
        (
            FailurePhase::Execution,
            FailureCode::CommandExit,
            None,
            None,
            Some(0),
        ),
        (
            FailurePhase::Start,
            FailureCode::InputSourceUnavailable,
            Some("SECRET_PATH"),
            None,
            None,
        ),
        (
            FailurePhase::OutputCapture,
            FailureCode::OutputMissing,
            None,
            Some("../../secret"),
            None,
        ),
    ] {
        assert_eq!(
            FailureDetail::new(
                phase,
                code,
                input.map(str::to_owned),
                None,
                output.map(str::to_owned),
                exit_code
            ),
            Err(EvidenceError::InvalidFailureDetail)
        );
    }
    assert!(FailureDetail::new(
        FailurePhase::Start,
        FailureCode::InputInvalidName,
        Some("SECRET_PATH".to_owned()),
        None,
        None,
        None
    )
    .is_ok());
}

#[test]
fn prerequisite_references_require_safe_authored_identifiers() {
    for reference in [
        "outputs..value",
        "outputs.build.",
        "outputs.bad/path.value",
        "outputs.build.bad/path",
    ] {
        assert!(
            Prerequisite::body(reference).is_err(),
            "accepted {reference}"
        );
    }
    assert!(Prerequisite::body("outputs.Build_1.safeValue2").is_ok());
}

#[test]
fn primary_issue_state_selects_the_closed_detail_member() {
    let node = || WorkflowNode {
        id: "build".to_owned(),
        role: WorkflowNodeRole::Step,
    };
    let detail = FailureDetail::new(
        FailurePhase::Execution,
        FailureCode::CommandExit,
        None,
        None,
        None,
        Some(23),
    )
    .unwrap();
    let failed = PrimaryIssue::failed(node(), detail);
    assert_eq!(failed.state, PrimaryIssueState::Failed);
    assert!(matches!(failed.detail, PrimaryIssueDetail::Failed(_)));
    let blocked = PrimaryIssue::blocked(node(), BlockedDetail::new(vec![control("lint")]).unwrap());
    assert_eq!(blocked.state, PrimaryIssueState::Blocked);
    assert!(matches!(blocked.detail, PrimaryIssueDetail::Blocked(_)));
}

#[test]
fn listed_prerequisites_must_stand_in_order() {
    assert!(BlockedDetail::from_listed(vec![control("a"), control("b")]).is_ok());
    assert_eq!(
        BlockedDetail::from_listed(vec![control("b"), control("a")]),
        Err(EvidenceError::InvalidPrerequisite)
    );
    assert_eq!(
        BlockedDetail::from_listed(vec![control("a"), control("a")]),
        Err(EvidenceError::InvalidPrerequisite)
    );
    assert_eq!(
        BlockedDetail::from_listed(Vec::new()),
        Err(EvidenceError::InvalidPrerequisiteCount)
    );
}

#[test]
fn blocked_details_refuse_bad_counts_and_names() {
    assert_eq!(
        BlockedDetail::new(Vec::new()),
        Err(EvidenceError::InvalidPrerequisiteCount)
    );
    let many = (0..=MAXIMUM_PREREQUISITES)
        .map(|index| control(&format!("n{index}")))
        .collect();
    assert_eq!(
        BlockedDetail::new(many),
        Err(EvidenceError::InvalidPrerequisiteCount)
    );
    let repeated = (0..=MAXIMUM_PREREQUISITES).map(|_| control("n")).collect();
    assert_eq!(BlockedDetail::new(repeated).unwrap().prerequisites.len(), 1);
    assert_eq!(
        BlockedDetail::new(vec![body("outputs.a")]),
        Err(EvidenceError::InvalidPrerequisite)
    );
    assert_eq!(
        Prerequisite::control(""),
        Err(EvidenceError::InvalidPrerequisite)
    );
}

#[test]
fn prerequisites_are_ordered_by_kind_and_target() {
    let condition = Prerequisite::Condition {
        reference: "outputs.a.a".to_owned(),
    };
    assert!(control("z").stands_before(&condition));
    assert!(condition.stands_before(&body("outputs.a.a")));
    assert!(body("outputs.a.a").stands_before(&body("outputs.a.b")));
    assert!(!control("a").stands_before(&control("a")));
    assert_eq!(condition.kind(), PrerequisiteKind::Condition);
    assert_eq!(condition.target(), "outputs.a.a");
    assert!(condition.is_valid());
}

#[test]
fn identifiers_follow_their_grammar() {
    for id in ["a", "Z", "Build_1", "a-b"] {
        assert!(is_workflow_node_identifier(id), "{id}");
    }
    for id in ["", "1a", "_a", "a.b", "a b"] {
        assert!(!is_workflow_node_identifier(id), "{id}");
    }
    assert!(is_workflow_node_identifier(&"a".repeat(64)));
    assert!(!is_workflow_node_identifier(&"a".repeat(65)));
    for id in ["a", "safeValue2"] {
        assert!(is_workflow_value_identifier(id), "{id}");
    }
    for id in ["", "A", "a_b", "a-b"] {
        assert!(!is_workflow_value_identifier(id), "{id}");
    }
    assert!(is_output_reference("outputs.build.result"));
    assert!(!is_output_reference("outputs.build.result.more"));
    assert!(!is_output_reference("imports.build.result"));
}

#[test]
fn non_execution_codes_belong_to_roles() {
    assert_eq!(
        NonExecutionDetail::for_role(WorkflowNodeRole::Step, NonExecutionCode::FailureStop),
        Ok(NonExecutionDetail::failure_stop())
    );
    assert_eq!(
        NonExecutionDetail::for_role(
            WorkflowNodeRole::Finalizer,
            NonExecutionCode::FinalizerTriggerNotSelected
        ),
        Ok(NonExecutionDetail::finalizer_trigger_not_selected())
    );
    assert_eq!(
        NonExecutionDetail::for_role(WorkflowNodeRole::Finalizer, NonExecutionCode::FailureStop),
        Err(EvidenceError::NodeRoleMismatch)
    );
    assert_eq!(
        CancellationDetail::new(CancellationReason::UserRequest).code,
        CancellationReason::UserRequest
    );
}

#[test]
fn phases_have_names() {
    assert_eq!(FailurePhase::Start.as_str(), "start");
    assert_eq!(FailurePhase::Execution.as_str(), "execution");
    assert_eq!(FailurePhase::OutputCapture.as_str(), "output_capture");
}

#[test]
fn agent_failures_have_valid_evidence() {
    for cause in [
        AgentFailureCause::HarnessStartFailed,
        AgentFailureCause::HarnessSetupFailed {
            stage: AgentHarnessSetupStage::Initialization,
        },
        AgentFailureCause::HarnessInputTooLarge {
            kind: AgentInputKind::Message,
        },
        AgentFailureCause::HarnessFailed {
            detail: AgentHarnessFailureDetail::ModelError,
        },
        AgentFailureCause::HarnessProtocolFailed,
        AgentFailureCause::MissingResponse,
        AgentFailureCause::MissingResult,
        AgentFailureCause::ResultValidationLimitExceeded,
        AgentFailureCause::CapturedValueTooLarge,
        AgentFailureCause::ResultSettlementFailed,
    ] {
        let detail = agent_failure_detail(FailurePhase::Execution, &AgentFailure { cause });
        assert_eq!(detail.validate(), Ok(()), "{cause:?}");
        assert_eq!(detail.phase, FailurePhase::Execution);
    }
}

#[test]
fn causes_of_another_phase_are_refused() {
    let cause = StepFailureCause::Execution(
        workflow_engine::failure::StepExecutionFailure::Agent(AgentFailure {
            cause: AgentFailureCause::MissingResult,
        }),
    );
    assert!(failure_detail(FailurePhase::Execution, &cause).is_ok());
    assert_eq!(
        failure_detail(FailurePhase::Start, &cause),
        Err(EvidenceError::InvalidFailureCause)
    );
    assert_eq!(
        cause.node_failure_detail(FailurePhase::OutputCapture),
        Err(EvidenceError::InvalidFailureCause)
    );
}

#[test]
fn refusals_say_what_they_are() {
    assert_eq!(
        EvidenceError::NodeRoleMismatch.message(),
        "invalid workflow node evidence: NodeRoleMismatch"
    );
}

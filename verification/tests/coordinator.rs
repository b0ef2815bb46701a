use workflow_engine::condition::{WorkflowNode, WorkflowNodeRole};
use workflow_engine::coordinator::{
    cancellation_occurrence, commit_effects, committed_actions, coordination_result,
    initial_cancellation, initial_request, same_occurrence, CommitEffect, CommittedActionKind,
    CoordinationDiagnostic, CoordinationError, Coordinator, CoordinatorAction, CoordinatorEvent,
    CoordinatorPhase, Delivery, DriverOccurrence, DriverOccurrenceKind, Occurrence,
    OccurrenceOrdinal, RecordedOccurrence, Reduction,
};
use workflow_engine::evidence::{
    CancellationReason, FailureCode, FailureDetail, FailurePhase, NonExecutionCode, PrimaryIssue,
};
use workflow_engine::execution::{
    execution_result, observed_step_transition, ObservedStepTransition, RunOutcome,
};
use workflow_engine::named::NamedValues;
use workflow_engine::runtime::{
    Action, ActionId, CancellationOperation, RecoveryDecision, RecoveryRoundNumber,
    RequestedAction, RunState, StepState, StepStateKind, TargetExecutionNumber, TransitionEvent,
    WorkflowState, WorkflowStateKind,
};

fn id(transition_sequence: u64) -> ActionId {
    ActionId {
        transition_sequence,
    }
}

fn start_step(sequence: u64) -> RequestedAction {
    RequestedAction {
        id: id(sequence),
        action: Action::StartStep {
            step: "task".to_owned(),
            execution_number: TargetExecutionNumber { value: 1 },
        },
    }
}

fn graceful(operation: u64) -> CancellationOperation {
    CancellationOperation::Graceful {
        id: operation,
        reason: CancellationReason::UserRequest,
    }
}

fn committed(coordinator: &mut Coordinator) -> CoordinatorAction {
    coordinator.advance(CoordinatorEvent::Committed {
        succeeded: true,
        terminal: false,
        capacity_exceeded: false,
    })
}

fn started(capacity: u64) -> Coordinator {
    let mut coordinator = Coordinator::new(capacity);
    let action = coordinator.advance(CoordinatorEvent::Started { operation: None });
    assert!(matches!(
        action,
        CoordinatorAction::Initialize { cancellation: None, ordinal } if ordinal.get() == 1
    ));
    assert_eq!(committed(&mut coordinator), CoordinatorAction::Wait);
    coordinator
}

fn deliver(coordinator: &mut Coordinator, occurrence: RecordedOccurrence) -> CoordinatorAction {
    assert_eq!(
        coordinator.advance(CoordinatorEvent::Delivered {
            pending: None,
            delivery: Delivery::Ready,
        }),
        CoordinatorAction::Resolve { claimed: false }
    );
    coordinator.advance(CoordinatorEvent::Resolved { occurrence })
}

fn step_started() -> RecordedOccurrence {
    DriverOccurrence::step_started("task".to_owned(), id(1))
}

fn completed(content: &[u8]) -> RecordedOccurrence {
    DriverOccurrence::step_execution_completed("task".to_owned(), id(1), content.to_vec())
}

#[test]
fn failed_commit_prevents_initial_action_release() {
    let mut coordinator = Coordinator::new(4);
    coordinator.advance(CoordinatorEvent::Started { operation: None });
    assert_eq!(
        coordinator.advance(CoordinatorEvent::Committed {
            succeeded: false,
            terminal: false,
            capacity_exceeded: false,
        }),
        CoordinatorAction::Fail {
            error: CoordinationError::CommitFailed
        }
    );
    let mut reduction = Reduction::inert((), WorkflowState::Executing, false);
    reduction.actions.push(start_step(1));
    assert!(commit_effects(&reduction, false, false, true).is_empty());
}

#[test]
fn initialization_capacity_failure_is_committed_as_a_diagnostic() {
    let mut coordinator = Coordinator::new(4);
    coordinator.advance(CoordinatorEvent::Started { operation: None });
    let reduction = Reduction::inert((), WorkflowState::Executing, true);
    assert_eq!(
        reduction.diagnostic(),
        Some(CoordinationDiagnostic::TransitionCapacityExceeded)
    );
    assert_eq!(
        coordinator.advance(CoordinatorEvent::Committed {
            succeeded: true,
            terminal: false,
            capacity_exceeded: reduction.capacity_exceeded,
        }),
        CoordinatorAction::Fail {
            error: CoordinationError::TransitionCapacityExceeded
        }
    );
}

#[test]
fn transition_ceiling_failure_is_typed_and_committed_as_a_diagnostic() {
    let mut coordinator = Coordinator::new(4);
    coordinator.advance(CoordinatorEvent::Started { operation: None });
    let initialization = Reduction::inert((), WorkflowState::Executing, false);
    assert_eq!(initialization.diagnostic(), None);
    assert_eq!(committed(&mut coordinator), CoordinatorAction::Wait);
    deliver(&mut coordinator, step_started());
    let diagnostic = Reduction::inert((), WorkflowState::Executing, true);
    assert_eq!(
        diagnostic.diagnostic(),
        Some(CoordinationDiagnostic::TransitionCapacityExceeded)
    );
    assert!(!diagnostic.occurrence_accepted);
    assert!(diagnostic.events.is_empty());
    assert!(diagnostic.actions.is_empty());
    assert_eq!(
        coordinator.advance(CoordinatorEvent::Committed {
            succeeded: true,
            terminal: false,
            capacity_exceeded: diagnostic.capacity_exceeded,
        }),
        CoordinatorAction::Fail {
            error: CoordinationError::TransitionCapacityExceeded
        }
    );
}

#[test]
fn cancellation_after_pending_poll_precedes_and_preserves_ready_driver() {
    let mut coordinator = started(4);
    let action = coordinator.advance(CoordinatorEvent::Delivered {
        pending: Some(graceful(7)),
        delivery: Delivery::Ready,
    });
    assert!(matches!(
        action,
        CoordinatorAction::ReduceCancellation {
            operation,
            retain_delivery: true,
            ordinal,
        } if operation == graceful(7) && ordinal.get() == 2
    ));
    assert_eq!(committed(&mut coordinator), CoordinatorAction::Wait);
    assert!(matches!(
        deliver(&mut coordinator, step_started()),
        CoordinatorAction::ReduceOccurrence { exact_replay: false, ordinal } if ordinal.get() == 3
    ));
    assert_eq!(committed(&mut coordinator), CoordinatorAction::Wait);
    assert!(matches!(
        deliver(&mut coordinator, completed(b"done")),
        CoordinatorAction::ReduceOccurrence { exact_replay: false, ordinal } if ordinal.get() == 4
    ));
    let action = coordinator.advance(CoordinatorEvent::Committed {
        succeeded: true,
        terminal: true,
        capacity_exceeded: false,
    });
    assert!(matches!(
        action,
        CoordinatorAction::Finish { ordinal } if ordinal.get() == 4
    ));
    assert_eq!(coordinator.phase(), CoordinatorPhase::Ended);
}

#[test]
fn acknowledged_completion_claim_precedes_later_cancellation() {
    let mut coordinator = started(4);
    assert!(matches!(
        deliver(&mut coordinator, step_started()),
        CoordinatorAction::ReduceOccurrence { exact_replay: false, ordinal } if ordinal.get() == 2
    ));
    committed(&mut coordinator);
    assert_eq!(
        coordinator.advance(CoordinatorEvent::Delivered {
            pending: None,
            delivery: Delivery::Claimed { observed: true },
        }),
        CoordinatorAction::Resolve { claimed: true }
    );
    assert!(matches!(
        coordinator.advance(CoordinatorEvent::Resolved {
            occurrence: completed(b"completed"),
        }),
        CoordinatorAction::ReduceOccurrence { exact_replay: false, ordinal } if ordinal.get() == 3
    ));
}

#[test]
fn discarded_completion_claim_releases_provisional_resources() {
    let mut coordinator = Coordinator::new(4);
    let mut initialization = Reduction::inert((), WorkflowState::Executing, false);
    initialization.actions.push(start_step(1));
    assert!(matches!(
        coordinator.advance(CoordinatorEvent::Started { operation: None }),
        CoordinatorAction::Initialize {
            cancellation: None,
            ..
        }
    ));
    let mut released = Vec::new();
    for effect in commit_effects(&initialization, true, false, false) {
        if let CommitEffect::Release { index } = effect {
            released.push(format!("{:?}", initialization.actions[index].action));
        }
    }
    assert_eq!(committed(&mut coordinator), CoordinatorAction::Wait);

    assert_eq!(
        coordinator.advance(CoordinatorEvent::Delivered {
            pending: None,
            delivery: Delivery::Claimed { observed: true },
        }),
        CoordinatorAction::Resolve { claimed: true }
    );
    let CoordinatorAction::ReleaseStepResources { provisional } =
        coordinator.advance(CoordinatorEvent::Discarded {
            occurrence: completed(b"staging"),
            requires_release: true,
        })
    else {
        panic!("discarded completion did not release its provisional resources");
    };
    assert_eq!(provisional, b"staging");
    assert_eq!(released.len(), 1);
    assert_eq!(coordinator.phase(), CoordinatorPhase::Waiting);
    assert_eq!(
        coordinator.advance(CoordinatorEvent::OccurrencesClosed),
        CoordinatorAction::Fail {
            error: CoordinationError::OccurrenceChannelClosed
        }
    );
}

#[test]
fn discarded_claims_without_resources_release_nothing() {
    for (occurrence, requires_release) in [(completed(b"staging"), false), (step_started(), true)] {
        let mut coordinator = started(4);
        coordinator.advance(CoordinatorEvent::Delivered {
            pending: None,
            delivery: Delivery::Claimed { observed: true },
        });
        assert_eq!(
            coordinator.advance(CoordinatorEvent::Discarded {
                occurrence,
                requires_release,
            }),
            CoordinatorAction::Wait
        );
        assert_eq!(coordinator.phase(), CoordinatorPhase::Waiting);
    }
}

#[test]
fn replays_have_no_effect() {
    let replay = Reduction::of_replay(true, 7, WorkflowState::Finalizing).unwrap();
    assert_eq!(replay.state, 7);
    assert_eq!(replay.workflow, WorkflowState::Finalizing);
    assert!(replay.events.is_empty() && replay.actions.is_empty());
    assert!(!replay.occurrence_accepted && !replay.capacity_exceeded);
    assert!(Reduction::of_replay(false, 7, WorkflowState::Finalizing).is_none());
}

#[test]
fn changed_payload_for_one_handler_occurrence_identity_fails_closed() {
    let mut coordinator = started(8);
    let decided = |content: &[u8]| -> RecordedOccurrence {
        DriverOccurrence::recovery_handler_completed(
            "verify".to_owned(),
            RecoveryRoundNumber { value: 2 },
            id(3),
            RecoveryDecision {
                content: content.to_vec(),
            },
        )
    };
    assert!(matches!(
        deliver(&mut coordinator, decided(b"unchanged")),
        CoordinatorAction::ReduceOccurrence {
            exact_replay: false,
            ..
        }
    ));
    committed(&mut coordinator);
    assert!(matches!(
        deliver(&mut coordinator, decided(b"unchanged")),
        CoordinatorAction::ReduceOccurrence {
            exact_replay: true,
            ..
        }
    ));
    committed(&mut coordinator);
    assert_eq!(
        deliver(&mut coordinator, decided(b"changed")),
        CoordinatorAction::Fail {
            error: CoordinationError::OccurrenceConflict
        }
    );
}

#[test]
fn conflicting_provisional_payload_uses_content_digest_without_payload_equality() {
    let mut coordinator = started(4);
    deliver(&mut coordinator, completed(b"first"));
    committed(&mut coordinator);
    assert_eq!(
        deliver(&mut coordinator, completed(b"changed")),
        CoordinatorAction::Fail {
            error: CoordinationError::OccurrenceConflict
        }
    );
}

#[test]
fn exact_replay_of_an_early_stale_occurrence_remains_inert() {
    let mut coordinator = started(4);
    let early = || -> RecordedOccurrence {
        DriverOccurrence::step_execution_failed(
            "task".to_owned(),
            id(1),
            b"early failure".to_vec(),
        )
    };
    assert!(matches!(
        deliver(&mut coordinator, early()),
        CoordinatorAction::ReduceOccurrence {
            exact_replay: false,
            ..
        }
    ));
    committed(&mut coordinator);
    deliver(&mut coordinator, step_started());
    committed(&mut coordinator);
    assert!(matches!(
        deliver(&mut coordinator, early()),
        CoordinatorAction::ReduceOccurrence {
            exact_replay: true,
            ..
        }
    ));
    let inert = Reduction::inert((), WorkflowState::Executing, false);
    assert!(!inert.occurrence_accepted);
    assert!(inert.events.is_empty() && inert.actions.is_empty());
}

#[test]
fn memory_is_bounded_by_the_capacity() {
    let mut coordinator = started(1);
    deliver(&mut coordinator, step_started());
    committed(&mut coordinator);
    assert_eq!(
        deliver(&mut coordinator, completed(b"done")),
        CoordinatorAction::Fail {
            error: CoordinationError::OccurrenceIdentityCapacityExceeded
        }
    );
}

#[test]
fn closed_channels_end_the_run() {
    for closed in [
        CoordinatorEvent::CancellationClosed,
        CoordinatorEvent::OccurrencesClosed,
    ] {
        let mut coordinator = started(1);
        assert_eq!(
            coordinator.advance(closed),
            CoordinatorAction::Fail {
                error: CoordinationError::OccurrenceChannelClosed
            }
        );
    }
}

#[test]
fn an_unobserved_claim_is_waited_for() {
    let mut coordinator = started(1);
    assert_eq!(
        coordinator.advance(CoordinatorEvent::Delivered {
            pending: None,
            delivery: Delivery::Claimed { observed: false },
        }),
        CoordinatorAction::Wait
    );
    assert_eq!(
        coordinator.advance(CoordinatorEvent::CancellationPolled { operation: None }),
        CoordinatorAction::Wait
    );
}

#[test]
fn commits_store_acknowledge_close_and_release_in_order() {
    let mut reduction = Reduction::inert((), WorkflowState::Succeeded, false);
    reduction.occurrence_accepted = true;
    reduction.actions.push(start_step(1));
    reduction.actions.push(start_step(2));
    assert_eq!(
        commit_effects(&reduction, true, true, true),
        [
            CommitEffect::StoreState,
            CommitEffect::CompleteFinalizationArm,
            CommitEffect::Acknowledge { accepted: true },
            CommitEffect::CloseOccurrences,
            CommitEffect::Release { index: 0 },
            CommitEffect::Release { index: 1 },
        ]
    );
    assert_eq!(
        commit_effects(&reduction, false, true, true),
        [CommitEffect::AbortFinalizationArm]
    );
    assert!(!reduction.entered_finalization());
    reduction.events.push(TransitionEvent::Workflow {
        to: WorkflowStateKind::Finalizing,
    });
    assert!(reduction.entered_finalization());
}

#[test]
fn actions_are_recorded_by_what_they_name() {
    let recorded = committed_actions(&vec![start_step(4)]);
    assert_eq!(recorded.len(), 1);
    assert_eq!(recorded[0].id, id(4));
    assert_eq!(recorded[0].kind, CommittedActionKind::StartStep);
    assert_eq!(recorded[0].step.as_deref(), Some("task"));
    assert_eq!(
        recorded[0].execution_number,
        Some(TargetExecutionNumber { value: 1 })
    );
    assert_eq!(recorded[0].recovery_round, None);
}

#[test]
fn cancellations_get_their_deadline() {
    let occurrence: Occurrence<(), (), ()> = cancellation_occurrence(graceful(3), 100, 7);
    assert_eq!(
        occurrence,
        Occurrence::CancellationOperationRequested {
            operation: 3,
            reason: CancellationReason::UserRequest,
            deadline: 107,
        }
    );
    let aborted: Occurrence<(), (), ()> =
        cancellation_occurrence(CancellationOperation::ForceAbort { id: 4 }, 100, 7);
    assert!(matches!(
        aborted,
        Occurrence::ForceAbortRequested { operation: 4, .. }
    ));
    let initial = initial_cancellation(Some(graceful(9))).unwrap();
    assert_eq!(initial.operation, 9);
    let request = initial_request(initial, 100, 7);
    assert_eq!(request.reason, CancellationReason::UserRequest);
    assert_eq!(request.deadline, 107);
    assert_eq!(
        initial_cancellation(Some(CancellationOperation::ForceAbort { id: 4 })),
        None
    );
}

#[test]
fn occurrences_are_told_apart_by_all_they_tell() {
    assert!(same_occurrence(&completed(b"a"), &completed(b"a")));
    assert!(!same_occurrence(&completed(b"a"), &completed(b"b")));
    assert!(!same_occurrence(&completed(b"a"), &step_started()));
    let captured = |content: &[u8]| -> RecordedOccurrence {
        DriverOccurrence::outputs_captured(
            "task".to_owned(),
            id(1),
            NamedValues::new().with("result".to_owned(), content.to_vec()),
        )
    };
    assert!(same_occurrence(&captured(b"a"), &captured(b"a")));
    assert!(!same_occurrence(&captured(b"a"), &captured(b"b")));
    let both = |first: &str, second: &str| -> RecordedOccurrence {
        let outputs = NamedValues::new()
            .with(first.to_owned(), first.as_bytes().to_vec())
            .with(second.to_owned(), second.as_bytes().to_vec());
        DriverOccurrence::outputs_captured("task".to_owned(), id(1), outputs)
    };
    assert!(same_occurrence(&both("a", "b"), &both("b", "a")));
    assert!(!same_occurrence(&both("a", "b"), &both("a", "c")));
    assert_eq!(
        captured(b"a").identity().kind,
        DriverOccurrenceKind::OutputsCaptured
    );
    assert!(matches!(
        captured(b"a").into_runtime(),
        Occurrence::OutputsCaptured { .. }
    ));
}

#[test]
fn ordinals_count_from_one() {
    let origin = OccurrenceOrdinal::origin();
    assert_eq!(origin.get(), 0);
    assert_eq!(origin.next().unwrap().get(), 1);
}

#[test]
fn results_need_a_committed_state() {
    let ordinal = OccurrenceOrdinal::origin();
    assert_eq!(coordination_result(Some(5), ordinal).unwrap().state, 5);
    assert_eq!(
        coordination_result::<u8>(None, ordinal).err(),
        Some(CoordinationError::ReducerStateUnavailable)
    );
}

fn run_state(workflow: WorkflowState, exports: Option<NamedValues<u8>>) -> RunState<u8> {
    RunState {
        workflow,
        steps: NamedValues::new()
            .with(
                "lint".to_owned(),
                StepState::NotRun {
                    reason: NonExecutionCode::FailureStop,
                },
            )
            .with(
                "build".to_owned(),
                StepState::Succeeded {
                    outputs: NamedValues::new()
                        .with("result".to_owned(), 1)
                        .with("branch".to_owned(), 2),
                },
            ),
        exports,
    }
}

#[test]
fn ended_runs_hand_back_their_outcome() {
    let result = execution_result(
        run_state(
            WorkflowState::Succeeded,
            Some(NamedValues::new().with("branch".to_owned(), 9)),
        ),
        "workflow.yaml",
        "digest",
    )
    .unwrap();
    assert_eq!(result.outcome, RunOutcome::Succeeded);
    assert_eq!(result.exports.get("branch"), Some(&9));
    assert_eq!(result.steps.names(), ["build", "lint"]);
    assert_eq!(result.provenance, "workflow.yaml");
    assert_eq!(result.content_digest, "digest");

    let issue = PrimaryIssue::failed(
        WorkflowNode {
            id: "build".to_owned(),
            role: WorkflowNodeRole::Step,
        },
        FailureDetail::code(FailurePhase::Execution, FailureCode::CommandExit),
    );
    let failed = execution_result(
        run_state(
            WorkflowState::Failed {
                primary_failure: issue,
                later_cancellation: Some(CancellationReason::UserRequest),
            },
            Some(NamedValues::new()),
        ),
        (),
        (),
    )
    .unwrap();
    assert!(matches!(
        failed.outcome,
        RunOutcome::Failed {
            later_cancellation: Some(CancellationReason::UserRequest),
            ..
        }
    ));
    for (workflow, exports) in [
        (WorkflowState::Executing, Some(NamedValues::new())),
        (WorkflowState::Finalizing, Some(NamedValues::new())),
        (WorkflowState::Succeeded, None),
    ] {
        assert_eq!(
            execution_result(run_state(workflow, exports), (), ()),
            Err(CoordinationError::ReducerStateUnavailable)
        );
    }
}

#[test]
fn observers_are_told_of_reached_states() {
    let state = run_state(WorkflowState::Executing, None);
    let event = |step: &str, to: StepStateKind| TransitionEvent::Step {
        step: step.to_owned(),
        to,
    };
    assert_eq!(
        observed_step_transition(&event("build", StepStateKind::Succeeded), &state),
        Some(ObservedStepTransition::OutputsCommitted {
            outputs: vec!["branch".to_owned(), "result".to_owned()]
        })
    );
    assert_eq!(
        observed_step_transition(&event("lint", StepStateKind::NotRun), &state),
        Some(ObservedStepTransition::NotRun {
            reason: NonExecutionCode::FailureStop
        })
    );
    assert_eq!(
        observed_step_transition(&event("build", StepStateKind::Failed), &state),
        None
    );
    assert_eq!(
        observed_step_transition(&event("absent", StepStateKind::Succeeded), &state),
        None
    );
    assert_eq!(
        observed_step_transition(
            &TransitionEvent::Workflow {
                to: WorkflowStateKind::Finalizing
            },
            &state
        ),
        None
    );
}

#[test]
fn named_values_stand_in_order_and_once() {
    let values = NamedValues::new()
        .with("b".to_owned(), 1)
        .with("a".to_owned(), 2)
        .with("b".to_owned(), 3);
    assert_eq!(values.len(), 2);
    assert_eq!(values.names(), ["a", "b"]);
    assert_eq!(values.get("b"), Some(&3));
    assert_eq!(values.get("c"), None);
    assert_eq!(values.entry(0), &("a".to_owned(), 2));
    assert_eq!(values.clone(), values);
}

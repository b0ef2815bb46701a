use workflow_engine::agent::{AgentFailureCause, AgentHarnessSetupStage, AgentInputKind};
use workflow_engine::codex::drive::{
    begin_drive, drive_process, invocation_outcome, keeps_protocol_rejection, setup_failed,
    setup_failure, DriveAction, DriveEvent, DriveOutcome, DrivePhase, ParserProgress,
};
use workflow_engine::codex::input::{
    identity_of_attachment, initial_turn_input, is_image_media, is_text_media, is_white_space,
    launch_failure, StagedAttachment, StagedFile,
};
use workflow_engine::codex::launch::{
    admit_launch, assemble_arguments, codex_home_from_environment, invoke_inner, prepare_launch,
    staging_allowed, InvocationAction, InvocationEvent, InvocationPhase, LaunchFacts,
    TurnMaterial,
};
use workflow_engine::codex::process::{force_stop, launch_process, LaunchAction, LaunchPhase};
use workflow_engine::codex::rollout::{
    begin_retention, home_disposition, is_codex_thread_id, judge_rollout_file,
    judge_rollout_parent, judge_rollout_path, locate_rollout, retain_rollout,
    session_record_matches, validate_rollout_identity, CodexRolloutRejectionReason, FileIdentity,
    HomeAction, NamedFile, PathStatus, RetentionAction, RetentionEvent, RetentionState,
    SessionRecord, MAXIMUM_SESSION_META_BYTES,
};
use workflow_engine::codex::supervisor::{
    begin_supervision, supervise_process_group, SupervisorAction, SupervisorEvent,
};
use workflow_engine::evidence::CancellationReason;
use workflow_engine::json::JsonValue;

const THREAD_ID: &str = "018f7f1e-7b5a-7d13-8f19-2b6a4c8d0e12";

fn facts() -> LaunchFacts {
    LaunchFacts {
        system_prompt_bytes: 10,
        maximum_system_prompt_bytes: 1024,
        message_bytes: 10,
        maximum_message_bytes: 1024,
        profile_matches: true,
        version_supported: true,
        executable_absolute: true,
        diagnostics_bound: true,
    }
}

fn variables(entries: &[(&str, &str)]) -> Vec<(Vec<u8>, Vec<u8>)> {
    entries
        .iter()
        .map(|(name, value)| (name.as_bytes().to_vec(), value.as_bytes().to_vec()))
        .collect()
}

#[test]
fn launch_is_strict_stdio_with_invocation_scoped_project_and_hook_trust() {
    let expected_cwd = "/work/a \"b\"";
    let sqlite_home = "/dev/fd/3";
    let attachments = Vec::new();
    let plan = prepare_launch(
        facts(),
        Some(expected_cwd),
        &variables(&[("CODEX_HOME", "/state")]),
        Some(sqlite_home),
        &TurnMaterial {
            message: "ordinary user turn",
            attachments: &attachments,
            attachment_root: b"/staging",
            maximum_attachments: 8,
            maximum_attachment_bytes: 1024,
        },
    )
    .unwrap();
    let arguments = plan.arguments();
    assert_eq!(arguments[0], "--dangerously-bypass-hook-trust");
    assert_eq!(arguments[1], "-c");
    let trust = &arguments[2];
    assert!(trust.starts_with("projects={\""));
    assert!(trust.contains("trust_level=\"trusted\""));
    assert!(trust.contains("/work/a \\\"b\\\""));
    assert_eq!(arguments[3], "-c");
    assert_eq!(
        arguments[4],
        format!(
            "sqlite_home={}",
            serde_json::to_string(sqlite_home).unwrap()
        )
    );
    assert_eq!(
        &arguments[5..],
        ["app-server", "--strict-config", "--listen", "stdio://"]
    );
    assert_eq!(plan.expected_cwd(), expected_cwd);
    assert_eq!(plan.codex_home(), "/state");
    assert_eq!(plan.sqlite_home(), sqlite_home);
    assert_eq!(
        plan.initial_input(),
        &vec![item("text", "text", "ordinary user turn")]
    );
}

fn item(kind: &str, field: &str, content: &str) -> JsonValue {
    JsonValue::Object(vec![
        ("type".to_owned(), JsonValue::String(kind.to_owned())),
        (field.to_owned(), JsonValue::String(content.to_owned())),
    ])
}

fn staged(root: &str, index: usize, content: &[u8], media_type: &str) -> StagedAttachment {
    StagedAttachment {
        path: format!("{root}/{index:06}").into_bytes(),
        media_type: media_type.to_owned(),
        file: Some(StagedFile {
            regular: true,
            mode: 0o100400,
            bytes: u64::try_from(content.len()).unwrap(),
        }),
        content: Some(content.to_vec()),
    }
}

#[test]
fn ordered_attachments_use_exact_wrappers_native_images_and_sealed_notices() {
    let root = "/sealed/attachments";
    let canonical_json: &[u8] = br#"{"a":1,"z":2}"#;
    let fixtures: [(&[u8], &str); 8] = [
        (b"native text attachment", "text/plain"),
        (canonical_json, "Application/JSON; Charset=UTF-8"),
        (b"", "text/plain; charset=utf-8"),
        (b"png bytes", "IMAGE/PNG; profile=fixture"),
        (b"jpeg bytes", "image/jpeg"),
        (b"pdf bytes", "application/pdf"),
        (b"invalid \xff text", "text/plain"),
        (b"general bytes", "application/octet-stream"),
    ];
    let attachments: Vec<StagedAttachment> = fixtures
        .iter()
        .enumerate()
        .map(|(index, (content, media_type))| staged(root, index, content, media_type))
        .collect();
    let input = initial_turn_input(
        "ordinary user turn",
        &attachments,
        root.as_bytes(),
        8,
        1024,
    )
    .unwrap();

    assert_eq!(input.len(), fixtures.len() + 1);
    assert_eq!(input[0], item("text", "text", "ordinary user turn"));
    assert_eq!(
        input[1],
        item(
            "text",
            "text",
            "Scherzo attachment 000000 (text/plain) follows:\nnative text attachment"
        )
    );
    assert_eq!(
        input[2],
        item(
            "text",
            "text",
            "Scherzo attachment 000001 (Application/JSON; Charset=UTF-8) follows:\n{\"a\":1,\"z\":2}"
        )
    );
    assert_eq!(
        input[3],
        item(
            "text",
            "text",
            "Scherzo attachment 000002 (text/plain; charset=utf-8) follows:\n"
        )
    );
    assert_eq!(
        input[4],
        item("localImage", "path", "/sealed/attachments/000003")
    );
    assert_eq!(
        input[5],
        item("localImage", "path", "/sealed/attachments/000004")
    );
    for (input_index, attachment_index, media_type) in [
        (6, 5, "application/pdf"),
        (7, 6, "text/plain"),
        (8, 7, "application/octet-stream"),
    ] {
        assert_eq!(
            input[input_index],
            item(
                "text",
                "text",
                &format!(
                    "Scherzo attachment {attachment_index:06} has media type {media_type} and is available to runner tools at {root}/{attachment_index:06}."
                )
            )
        );
    }
    assert_eq!(
        input
            .iter()
            .filter(|entry| matches!(
                entry,
                JsonValue::Object(members)
                    if members[0].1 == JsonValue::String("localImage".to_owned())
            ))
            .count(),
        2
    );
}

#[test]
fn attachments_must_be_sealed_few_and_small() {
    let root = "/sealed";
    let failure = Err(launch_failure());
    let good = || vec![staged(root, 0, b"text", "text/plain")];
    assert!(initial_turn_input("m", &good(), b"/sealed", 1, 4).is_ok());
    assert_eq!(initial_turn_input("m", &good(), b"/sealed", 0, 4), failure);
    assert_eq!(initial_turn_input("m", &good(), b"/sealed", 1, 3), failure);
    assert_eq!(initial_turn_input("m", &good(), b"/other", 1, 4), failure);
    let mut writable = good();
    writable[0].file = Some(StagedFile {
        regular: true,
        mode: 0o100600,
        bytes: 4,
    });
    assert_eq!(
        initial_turn_input("m", &writable, b"/sealed", 1, 4),
        failure
    );
    let mut missing = good();
    missing[0].file = None;
    assert_eq!(initial_turn_input("m", &missing, b"/sealed", 1, 4), failure);
    let mut unread = good();
    unread[0].content = None;
    assert_eq!(initial_turn_input("m", &unread, b"/sealed", 1, 4), failure);
}

#[test]
fn media_types_are_told_apart_by_their_base() {
    assert!(is_text_media(" TEXT/markdown ; charset=utf-8"));
    assert!(is_text_media("application/json"));
    assert!(!is_text_media("text"));
    assert!(!is_text_media("application/jsonx"));
    assert!(is_image_media("image/PNG"));
    assert!(!is_image_media("image/gif"));
    assert_eq!(identity_of_attachment(7), "000007");
    assert_eq!(identity_of_attachment(12_345_678), "12345678");
    assert!(is_white_space('\u{3000}'));
    assert!(!is_white_space('a'));
}

#[test]
fn launches_are_refused_for_their_reason() {
    assert_eq!(admit_launch(facts()), Ok(()));
    let mut large = facts();
    large.message_bytes = 1025;
    assert_eq!(
        admit_launch(large),
        Err(AgentFailureCause::HarnessInputTooLarge {
            kind: AgentInputKind::Message
        })
    );
    large.system_prompt_bytes = 1025;
    assert_eq!(
        admit_launch(large),
        Err(AgentFailureCause::HarnessInputTooLarge {
            kind: AgentInputKind::SystemPrompt
        })
    );
    let mut unbound = facts();
    unbound.diagnostics_bound = false;
    assert_eq!(admit_launch(unbound), Err(launch_failure()));
    assert_eq!(
        launch_failure(),
        setup_failure(AgentHarnessSetupStage::ExecutableLaunch)
    );
}

#[test]
fn the_state_directory_comes_from_the_environment() {
    assert_eq!(
        codex_home_from_environment(&variables(&[("HOME", "/home/u"), ("CODEX_HOME", "/state")])),
        Ok("/state".to_owned())
    );
    assert_eq!(
        codex_home_from_environment(&variables(&[("HOME", "/home/u")])),
        Ok("/home/u/.codex".to_owned())
    );
    for environment in [
        variables(&[]),
        variables(&[("CODEX_HOME", "relative")]),
        vec![(b"CODEX_HOME".to_vec(), b"/\xff".to_vec())],
    ] {
        assert_eq!(
            codex_home_from_environment(&environment),
            Err(launch_failure())
        );
    }
    assert!(staging_allowed(b"/staging", b"/staging", b"/state"));
    assert!(!staging_allowed(b"/staging/x", b"/staging", b"/state"));
    assert!(!staging_allowed(b"/state/x", b"/state/x", b"/state"));
    assert!(staging_allowed(b"/statex", b"/statex", b"/state"));
    assert_eq!(
        assemble_arguments("\"/w\"", "\"/s\"")[2],
        "projects={\"/w\"={trust_level=\"trusted\"}}"
    );
}

#[test]
fn cancelled_invocations_are_not_launched() {
    let reason = CancellationReason::UserRequest;
    assert_eq!(
        invoke_inner(
            InvocationPhase::Created,
            InvocationEvent::Polled {
                reason: Some(reason)
            }
        ),
        (
            InvocationPhase::Ended,
            InvocationAction::Finish {
                outcome: DriveOutcome::Cancelled { reason }
            }
        )
    );
    assert_eq!(
        invoke_inner(
            InvocationPhase::Confirming,
            InvocationEvent::Polled { reason: None }
        ),
        (InvocationPhase::Launching, InvocationAction::Launch)
    );
    assert_eq!(
        invoke_inner(
            InvocationPhase::Preparing,
            InvocationEvent::PreparationLost
        )
        .1,
        InvocationAction::Finish {
            outcome: setup_failed(AgentHarnessSetupStage::ExecutableLaunch)
        }
    );
}

#[test]
fn processes_are_launched_under_guard() {
    let mut phase = LaunchPhase::Spawning;
    let mut actions = Vec::new();
    for _ in 0..6 {
        let (next, action) = launch_process(phase, true);
        phase = next;
        actions.push(action);
    }
    assert_eq!(
        actions,
        [
            LaunchAction::TakeStreams,
            LaunchAction::Register,
            LaunchAction::VerifyDiagnostics,
            LaunchAction::Continue,
            LaunchAction::MarkReleased,
            LaunchAction::Launched,
        ]
    );
    let (stopping, action) = launch_process(LaunchPhase::Verifying, false);
    assert_eq!(action, LaunchAction::ForceStop);
    let (quiescing, action) = launch_process(stopping, true);
    assert_eq!(action, LaunchAction::MarkQuiesced);
    assert_eq!(
        launch_process(quiescing, true),
        (LaunchPhase::Ended, LaunchAction::Fail)
    );
    assert!(force_stop(true, true, true));
    assert!(!force_stop(true, true, false));
}

#[test]
fn a_drive_reports_its_start_once_and_interrupts_once() {
    let begun = begin_drive();
    assert_eq!(begun.action, DriveAction::WriteFrames);
    let selecting = drive_process(begun.state, DriveEvent::Wrote { failure: None });
    assert_eq!(selecting.action, DriveAction::Select);
    let reporting = drive_process(
        selecting.state,
        DriveEvent::Parsed {
            progress: ParserProgress {
                start_acknowledged: true,
                close_standard_input: false,
            },
            reason: None,
        },
    );
    assert_eq!(reporting.action, DriveAction::ReportStart);

    let reason = CancellationReason::UserRequest;
    let interrupting = drive_process(
        selecting.state,
        DriveEvent::CancellationAccepted { reason },
    );
    assert_eq!(interrupting.action, DriveAction::Interrupt);
    assert_eq!(interrupting.state.cancelled, Some(reason));
    assert!(interrupting.state.interrupt_started);
    assert_eq!(selecting.state.phase, DrivePhase::Selecting);
}

#[test]
fn cancellation_decides_the_outcome_of_an_invocation() {
    let outcome = DriveOutcome::Reported { success: true };
    assert_eq!(invocation_outcome(outcome, None), outcome);
    assert_eq!(
        invocation_outcome(outcome, Some(CancellationReason::RunnerShutdown)),
        DriveOutcome::Cancelled {
            reason: CancellationReason::RunnerShutdown
        }
    );
    assert!(keeps_protocol_rejection(DriveOutcome::Failed {
        cause: AgentFailureCause::HarnessProtocolFailed
    }));
    assert!(!keeps_protocol_rejection(outcome));
}

#[test]
fn supervisors_request_one_interrupt() {
    let first = supervise_process_group(
        begin_supervision(),
        SupervisorEvent::CancellationAccepted,
    );
    assert_eq!(first.action, SupervisorAction::RequestInterrupt);
    let second = supervise_process_group(first.state, SupervisorEvent::InterruptDirected);
    assert_eq!(second.action, SupervisorAction::Listen);
    assert_eq!(
        supervise_process_group(second.state, SupervisorEvent::ForceDirected).action,
        SupervisorAction::TerminateAndReturn
    );
    assert_eq!(
        supervise_process_group(second.state, SupervisorEvent::Shutdown).action,
        SupervisorAction::Return
    );
}

#[test]
fn thread_identifiers_are_lowercase_version_seven() {
    assert!(is_codex_thread_id(THREAD_ID));
    for other in [
        "",
        "018F7F1E-7B5A-7D13-8F19-2B6A4C8D0E12",
        "018f7f1e-7b5a-4d13-8f19-2b6a4c8d0e12",
        "018f7f1e-7b5a-7d13-cf19-2b6a4c8d0e12",
        "018f7f1e07b5a-7d13-8f19-2b6a4c8d0e12",
    ] {
        assert!(!is_codex_thread_id(other), "{other}");
    }
}

fn located(reported: &str) -> Result<Vec<String>, CodexRolloutRejectionReason> {
    locate_rollout(reported.as_bytes(), b"/home/u/.codex", THREAD_ID).map(|parts| {
        parts
            .into_iter()
            .map(|part| String::from_utf8(part).unwrap())
            .collect()
    })
}

#[test]
fn rollouts_stand_under_their_day() {
    let name = format!("rollout-2026-08-18T00-00-00-{THREAD_ID}.jsonl");
    assert_eq!(
        located(&format!("/home/u/.codex/sessions/2026/08/18/{name}")),
        Ok(vec![
            "sessions".to_owned(),
            "2026".to_owned(),
            "08".to_owned(),
            "18".to_owned(),
            name.clone(),
        ])
    );
    assert!(located(&format!("/home/u/.codex//sessions/./2026/08/18/{name}")).is_ok());
    for (reported, expected) in [
        (
            "/home/u/outside.jsonl".to_owned(),
            CodexRolloutRejectionReason::PathOutsideStateBoundary,
        ),
        (
            format!("home/u/.codex/sessions/2026/08/18/{name}"),
            CodexRolloutRejectionReason::PathOutsideStateBoundary,
        ),
        (
            format!("/home/u/.codex/../.codex/sessions/2026/08/18/{name}"),
            CodexRolloutRejectionReason::PathShapeInvalid,
        ),
        (
            format!("/home/u/.codex/sessions/2026/8/18/{name}"),
            CodexRolloutRejectionReason::PathShapeInvalid,
        ),
        (
            "/home/u/.codex/sessions/2026/08/18/rollout-x.jsonl".to_owned(),
            CodexRolloutRejectionReason::PathShapeInvalid,
        ),
    ] {
        assert_eq!(located(&reported), Err(expected), "{reported}");
    }
}

#[test]
fn rollouts_belong_to_their_thread() {
    let rollout = format!(
        "{{\"timestamp\":\"2026-08-18T00:00:00Z\",\"type\":\"session_meta\",\"payload\":{{\"id\":\"{THREAD_ID}\",\"session_id\":\"{THREAD_ID}\"}}}}\n{{partial"
    );
    assert_eq!(
        validate_rollout_identity(rollout.as_bytes(), THREAD_ID),
        Ok(())
    );
    let mismatch = Err(CodexRolloutRejectionReason::ThreadIdentityMismatch);
    assert_eq!(
        validate_rollout_identity(
            rollout.as_bytes(),
            "018f7f1e-7b5a-7d13-8f19-2b6a4c8d0e13"
        ),
        mismatch
    );
    assert_eq!(validate_rollout_identity(b"", THREAD_ID), mismatch);
    assert_eq!(validate_rollout_identity(b"{partial", THREAD_ID), mismatch);
    let mut long = vec![b' '; usize::try_from(MAXIMUM_SESSION_META_BYTES).unwrap()];
    long.extend_from_slice(rollout.as_bytes());
    assert_eq!(validate_rollout_identity(&long, THREAD_ID), mismatch);
    let record = SessionRecord {
        kind: Some("session_meta".to_owned()),
        thread_id: Some(THREAD_ID.to_owned()),
        session_id: None,
    };
    assert!(!session_record_matches(&record, THREAD_ID));
}

#[test]
fn opened_rollouts_are_the_named_ones() {
    let identity = FileIdentity {
        device: 1,
        inode: 2,
    };
    let other = FileIdentity {
        device: 1,
        inode: 3,
    };
    let present = NamedFile::Present {
        regular: true,
        identity,
    };
    assert_eq!(judge_rollout_file(present, Some(identity)), Ok(identity));
    for (named, opened, expected) in [
        (
            NamedFile::Missing,
            None,
            CodexRolloutRejectionReason::RolloutMissing,
        ),
        (
            NamedFile::Unavailable,
            None,
            CodexRolloutRejectionReason::PathComponentInvalid,
        ),
        (
            NamedFile::Present {
                regular: false,
                identity,
            },
            Some(identity),
            CodexRolloutRejectionReason::UnexpectedFileKind,
        ),
        (
            present,
            Some(other),
            CodexRolloutRejectionReason::PathReplaced,
        ),
        (present, None, CodexRolloutRejectionReason::PathReplaced),
    ] {
        assert_eq!(judge_rollout_file(named, opened), Err(expected));
    }
    assert_eq!(judge_rollout_path(true, true, present, identity), None);
    assert_eq!(
        judge_rollout_path(true, false, present, identity),
        Some(CodexRolloutRejectionReason::PathReplaced)
    );
    assert_eq!(judge_rollout_parent(true, true), None);
    assert_eq!(
        judge_rollout_parent(false, true),
        Some(CodexRolloutRejectionReason::StateBoundaryUnavailable)
    );
    assert_eq!(home_disposition(PathStatus::Missing), HomeAction::Create);
    assert_eq!(home_disposition(PathStatus::Present), HomeAction::Validate);
    assert_eq!(home_disposition(PathStatus::Unknown), HomeAction::Refuse);
}

fn retained(materialized: bool, events: &[RetentionEvent]) -> Vec<RetentionAction> {
    let (mut state, first): (RetentionState, RetentionAction) = begin_retention(materialized);
    let mut actions = vec![first];
    for event in events {
        let (next, action) = retain_rollout(state, *event);
        state = next;
        actions.push(action);
    }
    actions
}

#[test]
fn rollouts_are_copied_removed_synced_and_kept() {
    let done = RetentionEvent::Answered { succeeded: true };
    let accepted = RetentionEvent::Judged { refusal: None };
    let whole = RetentionEvent::Copied { complete: true };
    assert_eq!(
        retained(
            true,
            &[
                done,
                accepted,
                accepted,
                whole,
                accepted,
                done,
                done,
                RetentionEvent::Kept,
            ]
        ),
        [
            RetentionAction::VerifyBinding,
            RetentionAction::OpenRollout,
            RetentionAction::ValidateIdentity,
            RetentionAction::CopyRollout,
            RetentionAction::VerifyPath,
            RetentionAction::RemoveSource,
            RetentionAction::SyncParent,
            RetentionAction::KeepCopy,
            RetentionAction::Finish,
        ]
    );
}

#[test]
fn oversized_rollouts_keep_a_prefix_and_failed_syncs_keep_nothing() {
    let done = RetentionEvent::Answered { succeeded: true };
    let failed = RetentionEvent::Answered { succeeded: false };
    let accepted = RetentionEvent::Judged { refusal: None };
    let part = RetentionEvent::Copied { complete: false };
    let oversized = retained(
        true,
        &[
            done,
            accepted,
            accepted,
            part,
            accepted,
            done,
            done,
            RetentionEvent::Kept,
        ],
    );
    assert!(oversized.contains(&RetentionAction::KeepCopy));
    assert_eq!(
        oversized.last(),
        Some(&RetentionAction::Refuse {
            reason: CodexRolloutRejectionReason::RolloutTooLarge
        })
    );
    let unsynced = retained(
        true,
        &[done, accepted, accepted, part, accepted, done, failed],
    );
    assert!(!unsynced.contains(&RetentionAction::KeepCopy));
    assert_eq!(
        unsynced.last(),
        Some(&RetentionAction::Refuse {
            reason: CodexRolloutRejectionReason::AmbientRemovalFailed
        })
    );
    let replaced = retained(
        true,
        &[
            done,
            accepted,
            accepted,
            part,
            RetentionEvent::Judged {
                refusal: Some(CodexRolloutRejectionReason::PathReplaced),
            },
        ],
    );
    assert!(!replaced.contains(&RetentionAction::RemoveSource));
    assert_eq!(
        retained(true, &[failed]).last(),
        Some(&RetentionAction::Refuse {
            reason: CodexRolloutRejectionReason::StateBoundaryUnavailable
        })
    );
    assert_eq!(
        retained(
            true,
            &[done, accepted, accepted, RetentionEvent::CopyFailed]
        )
        .last(),
        Some(&RetentionAction::Refuse {
            reason: CodexRolloutRejectionReason::RetainedStorageUnavailable
        })
    );
}

#[test]
fn unwritten_rollouts_may_be_missing() {
    let done = RetentionEvent::Answered { succeeded: true };
    let missing = RetentionEvent::Judged {
        refusal: Some(CodexRolloutRejectionReason::RolloutMissing),
    };
    assert_eq!(
        retained(false, &[done, missing]).last(),
        Some(&RetentionAction::Finish)
    );
    assert_eq!(
        retained(true, &[done, missing]).last(),
        Some(&RetentionAction::Refuse {
            reason: CodexRolloutRejectionReason::RolloutMissing
        })
    );
}

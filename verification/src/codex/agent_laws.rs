//! What invoking an agent does step by step: its launch, its supervision, what it is given
//! and what is retained of it.

use vstd::prelude::*;
use vstd::string::StringSliceAdditionalSpecFns;
use vstd::utf8::{decode_utf8, valid_utf8};

use crate::agent::{AgentFailureCause, AgentHarnessSetupStage, AgentInputKind};
use crate::codex::drive::{
    invocation_outcome, setup_failed, start_acknowledgement_failure, tells_protocol_rejection,
    DriveOutcome,
};
use crate::codex::input::{
    admitted_form, ascii_lowercase, attachment_form, attachment_identity, base_media_type,
    failed_launch, image_item, image_media, item_has_form, same_ignoring_case, sealed, text_item,
    text_media, total_bytes, white_space, AttachmentForm, StagedAttachment, StagedFile,
};
use crate::codex::launch::{
    argument_texts, home_path, invoke_inner_rule, launch_refusal, prepare_launch, staging_allowed,
    variable, CodexAppServerV1LaunchPlan, InvocationAction, InvocationEvent, InvocationPhase,
    LaunchFacts, TurnMaterial,
};
use crate::codex::process::{force_stop_rule, launch_process_rule, LaunchAction, LaunchPhase};
use crate::codex::rollout::{
    codex_thread_id, first_record, home_disposition_rule, identity_refusal, json_text_at,
    judge_rollout_file_rule, judge_rollout_parent_rule, judge_rollout_path_rule,
    retain_rollout_rule, rollout_location, rollout_name, session_record, session_record_matches,
    CodexRolloutRejectionReason, FileIdentity, HomeAction, NamedFile, PathStatus, RetentionAction,
    RetentionEvent, RetentionPhase, RetentionState, SessionRecord, MAXIMUM_SESSION_META_BYTES,
};
use crate::codex::supervisor::{
    supervise_process_group_rule, SupervisorAction, SupervisorEvent, SupervisorState,
};
use crate::decimal::ascii_digits;
use crate::evidence::CancellationReason;
use crate::json::JsonValue;
use crate::path::{absolute, joined, path_parts};
use crate::text::decimal_text;

verus! {

/// The failure of a launch.
pub open spec fn launch_failed() -> AgentFailureCause {
    AgentFailureCause::HarnessSetupFailed { stage: AgentHarnessSetupStage::ExecutableLaunch }
}

/// An invocation goes on to its next step exactly when the step before succeeded: it looks for
/// a cancellation, prepares, takes its directives, looks for a cancellation again, launches,
/// configures, drives and closes its diagnostics.
pub proof fn law_invocations_go_step_by_step(phase: InvocationPhase, event: InvocationEvent)
    ensures
        ({
            let (next, action) = invoke_inner_rule(phase, event);
            let cancelled = event matches InvocationEvent::Polled { reason } && reason is Some;
            let failed = event matches InvocationEvent::Prepared { failure } && failure is Some;
            &&& action == InvocationAction::Prepare <==> phase == InvocationPhase::Created
                && !cancelled
            &&& action == InvocationAction::TakeDirectives <==> phase == InvocationPhase::Preparing
                && event == (InvocationEvent::Prepared { failure: None })
            &&& action == InvocationAction::PollCancellation <==> phase == InvocationPhase::Claiming
                && event == (InvocationEvent::Answered { succeeded: true })
            &&& action == InvocationAction::Launch <==> phase == InvocationPhase::Confirming
                && !cancelled
            &&& action == InvocationAction::ConfigureParser <==> phase == InvocationPhase::Launching
                && !failed
            &&& action == InvocationAction::Drive <==> phase == InvocationPhase::Configuring
                && !failed
            &&& action == InvocationAction::AbortProcess <==> phase == InvocationPhase::Configuring
                && failed
            &&& action is FinishDiagnostics <==> phase == InvocationPhase::Driving && event
                is Driven
            &&& action == InvocationAction::Rest <==> phase == InvocationPhase::Ended
            &&& action is Finish ==> next == InvocationPhase::Ended
            &&& action == InvocationAction::Prepare ==> next == InvocationPhase::Preparing
            &&& action == InvocationAction::TakeDirectives ==> next == InvocationPhase::Claiming
            &&& action == InvocationAction::PollCancellation ==> next == InvocationPhase::Confirming
            &&& action == InvocationAction::Launch ==> next == InvocationPhase::Launching
            &&& action == InvocationAction::ConfigureParser ==> next == InvocationPhase::Configuring
            &&& action == InvocationAction::Drive ==> next == InvocationPhase::Driving
            &&& action == InvocationAction::AbortProcess ==> next == (InvocationPhase::Aborting {
                cause: event->failure->Some_0,
            })
            &&& action matches InvocationAction::FinishDiagnostics { outcome } ==> next
                == (InvocationPhase::Closing { outcome }) && event == (InvocationEvent::Driven {
                outcome,
            })
        }),
{
}

/// An invocation ends as what ended it: a cancellation with its reason, a failed step with its
/// failure, a lost one with a failed launch, and a drive with its outcome.
pub proof fn law_invocations_end_as_they_went(
    phase: InvocationPhase,
    event: InvocationEvent,
    outcome: DriveOutcome,
)
    requires
        invoke_inner_rule(phase, event).1 == (InvocationAction::Finish { outcome }),
    ensures
        match phase {
            InvocationPhase::Closing { outcome: driven } => outcome == driven,
            InvocationPhase::Aborting { cause } => outcome == (DriveOutcome::Failed { cause }),
            _ => match event {
                InvocationEvent::Polled { reason: Some(reason) } => if phase
                    == InvocationPhase::Created || phase == InvocationPhase::Confirming {
                    outcome == (DriveOutcome::Cancelled { reason })
                } else {
                    outcome == (DriveOutcome::Failed { cause: launch_failed() })
                },
                InvocationEvent::Prepared { failure: Some(cause) } => if phase
                    == InvocationPhase::Preparing || phase == InvocationPhase::Launching {
                    outcome == (DriveOutcome::Failed { cause })
                } else {
                    outcome == (DriveOutcome::Failed { cause: launch_failed() })
                },
                _ => outcome == (DriveOutcome::Failed { cause: launch_failed() }),
            },
        },
{
}

/// A cancellation that was accepted by the end of an invocation is its outcome; without one
/// the outcome stands.
pub proof fn law_late_cancellations_are_the_outcome(
    outcome: DriveOutcome,
    reason: Option<CancellationReason>,
    reported: DriveOutcome,
)
    requires
        call_ensures(invocation_outcome, (outcome, reason), reported),
    ensures
        reason is None ==> reported == outcome,
        reason matches Some(reason) ==> reported == (DriveOutcome::Cancelled { reason }),
{
}

/// A setup that failed is told with its stage, and only failures of the setup and of the
/// protocol tell how the agent broke the protocol.
pub proof fn law_setups_fail_with_their_stage(
    stage: AgentHarnessSetupStage,
    outcome: DriveOutcome,
    told: DriveOutcome,
)
    requires
        call_ensures(setup_failed, (stage,), outcome),
    ensures
        outcome == (DriveOutcome::Failed {
            cause: AgentFailureCause::HarnessSetupFailed { stage },
        }),
        start_acknowledgement_failure() == (AgentFailureCause::HarnessSetupFailed {
            stage: AgentHarnessSetupStage::StartAcknowledgement,
        }),
        failed_launch() == launch_failed(),
        tells_protocol_rejection(told) <==> (told matches DriveOutcome::Failed { cause } && (cause
            is HarnessSetupFailed || cause is HarnessProtocolFailed)),
{
}

/// A launch is refused exactly if the prompt or the message is too long, which is told of the
/// prompt first, or if the agent is not the one that is meant, or its diagnostics are gone.
pub proof fn law_launches_are_refused_for_length_then_identity(facts: LaunchFacts)
    ensures
        ({
            let long_prompt = facts.system_prompt_bytes > facts.maximum_system_prompt_bytes;
            let long_message = facts.message_bytes > facts.maximum_message_bytes;
            let meant = facts.profile_matches && facts.version_supported
                && facts.executable_absolute && facts.diagnostics_bound;
            &&& launch_refusal(facts) is None <==> !long_prompt && !long_message && meant
            &&& long_prompt ==> launch_refusal(facts) == Some(
                AgentFailureCause::HarnessInputTooLarge { kind: AgentInputKind::SystemPrompt },
            )
            &&& !long_prompt && long_message ==> launch_refusal(facts) == Some(
                AgentFailureCause::HarnessInputTooLarge { kind: AgentInputKind::Message },
            )
            &&& !long_prompt && !long_message && !meant ==> launch_refusal(facts) == Some(
                launch_failed(),
            )
        }),
{
}

/// Setting a variable gives it its value and leaves all others as they were.
pub proof fn law_variables_have_their_last_value(
    environment: Seq<(Vec<u8>, Vec<u8>)>,
    entry: (Vec<u8>, Vec<u8>),
    name: Seq<u8>,
)
    ensures
        variable(Seq::empty(), name) is None,
        variable(environment.push(entry), name) == (if entry.0@ == name {
            Some(entry.1@)
        } else {
            variable(environment, name)
        }),
{
    assert(environment.push(entry).drop_last() =~= environment);
}

/// The agent keeps its state where `CODEX_HOME` says, whatever else is set; without it in
/// `.codex` under `HOME`; without both nowhere.
pub proof fn law_homes_come_from_the_environment(environment: Seq<(Vec<u8>, Vec<u8>)>)
    ensures
        variable(environment, "CODEX_HOME".spec_bytes()) matches Some(path) ==> home_path(
            environment,
        ) == Some(path),
        variable(environment, "CODEX_HOME".spec_bytes()) is None ==> (variable(
            environment,
            "HOME".spec_bytes(),
        ) matches Some(home) ==> home_path(environment) == Some(
            joined(home, ".codex".spec_bytes()),
        )),
        variable(environment, "CODEX_HOME".spec_bytes()) is None && variable(
            environment,
            "HOME".spec_bytes(),
        ) is None ==> home_path(environment) is None,
{
}

/// The app server is called with nine arguments, of which only the trusted project and the
/// state directory differ from call to call.
pub proof fn law_calls_differ_in_project_and_state(cwd: Seq<char>, state: Seq<char>)
    ensures
        ({
            let arguments = argument_texts(cwd, state);
            &&& arguments.len() == 9
            &&& arguments[0] == "--dangerously-bypass-hook-trust"@
            &&& arguments[1] == "-c"@ && arguments[2] == "projects={"@ + cwd
                + "={trust_level=\"trusted\"}}"@
            &&& arguments[3] == "-c"@ && arguments[4] == "sqlite_home="@ + state
            &&& arguments[5] == "app-server"@ && arguments[6] == "--strict-config"@
            &&& arguments[7] == "--listen"@ && arguments[8] == "stdio://"@
        }),
{
}

/// A launch takes one step after the other: the streams, the registration, the diagnostics,
/// the run and its release. Each goes on only after the one before succeeded, and the last
/// hands the process over.
pub proof fn law_launches_go_step_by_step(phase: LaunchPhase)
    ensures
        launch_process_rule(LaunchPhase::Spawning, true) == (
            LaunchPhase::Connecting,
            LaunchAction::TakeStreams,
        ),
        launch_process_rule(LaunchPhase::Connecting, true) == (
            LaunchPhase::Registering,
            LaunchAction::Register,
        ),
        launch_process_rule(LaunchPhase::Registering, true) == (
            LaunchPhase::Verifying,
            LaunchAction::VerifyDiagnostics,
        ),
        launch_process_rule(LaunchPhase::Verifying, true) == (
            LaunchPhase::Continuing,
            LaunchAction::Continue,
        ),
        launch_process_rule(LaunchPhase::Continuing, true) == (
            LaunchPhase::Releasing,
            LaunchAction::MarkReleased,
        ),
        launch_process_rule(LaunchPhase::Releasing, true) == (
            LaunchPhase::Ended,
            LaunchAction::Launched,
        ),
        launch_process_rule(LaunchPhase::Spawning, false) == (
            LaunchPhase::Ended,
            LaunchAction::Fail,
        ),
        phase == LaunchPhase::Connecting || phase == LaunchPhase::Registering
            ==> launch_process_rule(phase, false) == (
            LaunchPhase::Stopping { registered: false },
            LaunchAction::ForceStop,
        ),
        phase == LaunchPhase::Verifying || phase == LaunchPhase::Continuing || phase
            == LaunchPhase::Releasing ==> launch_process_rule(phase, false) == (
            LaunchPhase::Stopping { registered: true },
            LaunchAction::ForceStop,
        ),
        forall|answer: bool|
            launch_process_rule(LaunchPhase::Stopping { registered: true }, answer) == (
                LaunchPhase::Quiescing,
                LaunchAction::MarkQuiesced,
            ),
        forall|answer: bool|
            launch_process_rule(LaunchPhase::Stopping { registered: false }, answer) == (
                LaunchPhase::Ended,
                LaunchAction::Fail,
            ),
        forall|answer: bool|
            launch_process_rule(LaunchPhase::Quiescing, answer) == (
                LaunchPhase::Ended,
                LaunchAction::Fail,
            ),
        forall|answer: bool|
            launch_process_rule(LaunchPhase::Ended, answer) == (
                LaunchPhase::Ended,
                LaunchAction::Rest,
            ),
{
}

/// Forcing a process to stop has left nothing exactly if it was stopped, that was noted, and
/// nothing of its group is left.
pub proof fn law_forced_stops_need_all_signs(stopped: bool, marked: bool, quiescent: bool)
    ensures
        force_stop_rule(stopped, marked, quiescent) <==> !(!stopped || !marked || !quiescent),
{
}

/// A supervisor listens until it is shut down or told to force; the first cancellation or
/// interruption is passed on to the agent, later ones are not. It notes a cancellation, a
/// passed interruption and the end of its directives, and nothing else.
pub proof fn law_supervisors_pass_the_first_request_on(
    state: SupervisorState,
    event: SupervisorEvent,
)
    ensures
        ({
            let turn = supervise_process_group_rule(state, event);
            let asked = event == SupervisorEvent::CancellationAccepted || event
                == SupervisorEvent::InterruptDirected;
            &&& turn.action == SupervisorAction::RequestInterrupt <==> asked
                && !state.interrupt_requested
            &&& turn.action == SupervisorAction::Return <==> event == SupervisorEvent::Shutdown
            &&& turn.action == SupervisorAction::TerminateAndReturn <==> event
                == SupervisorEvent::ForceDirected
            &&& turn.state.interrupt_requested <==> state.interrupt_requested || asked
            &&& turn.state.cancellation_observed <==> state.cancellation_observed || event
                == SupervisorEvent::CancellationAccepted
            &&& turn.state.directives_open <==> state.directives_open && event
                != SupervisorEvent::DirectivesClosed
        }),
{
}

/// White space is what Unicode calls white space: the ASCII controls from 9 to 13, the space,
/// and the wider spaces and separators.
pub proof fn law_white_space_is_that_of_unicode(character: char)
    ensures
        white_space(character) <==> {
            let code = character as u32;
            9 <= code <= 13 || code == 32 || code == 133 || code == 160 || code == 5760 || 8192
                <= code <= 8202 || code == 8232 || code == 8233 || code == 8239 || code == 8287
                || code == 12288
        },
{
}

/// Case does not matter of ASCII letters, and of nothing else.
pub proof fn law_case_is_that_of_ascii_letters(character: char)
    ensures
        65 <= character as u32 <= 90 ==> ascii_lowercase(character) as u32 == character as u32 + 32,
        !(65 <= character as u32 <= 90) ==> ascii_lowercase(character) == character,
{
}

/// A media type is one of text if what stands before its parameters starts with `text/` and
/// goes on, or is `application/json`, whatever its case; one of images if it is `image/png` or
/// `image/jpeg`.
pub proof fn law_media_types_are_told_by_their_base(media_type: Seq<char>)
    ensures
        ({
            let base = base_media_type(media_type);
            &&& text_media(media_type) <==> (base.len() >= 6 && same_ignoring_case(
                base.take(5),
                "text/"@,
            )) || same_ignoring_case(base, "application/json"@)
            &&& image_media(media_type) <==> same_ignoring_case(base, "image/png"@)
                || same_ignoring_case(base, "image/jpeg"@)
        }),
{
}

/// The number of an attachment is written in at least six digits, filled up with zeros.
pub proof fn law_attachments_are_numbered_in_six_digits(index: nat)
    ensures
        attachment_identity(index).len() >= 6,
        ({
            let digits = decimal_text(index);
            let written = attachment_identity(index);
            &&& digits.len() >= 6 ==> written == digits
            &&& digits.len() < 6 ==> written.len() == 6 && written.skip(6 - digits.len()) == digits
                && forall|i: int| 0 <= i < 6 - digits.len() ==> #[trigger] written[i] == '0'
        }),
{
    let digits = decimal_text(index);
    let written = attachment_identity(index);
    if digits.len() >= 6 {
        assert(written =~= digits);
    } else {
        assert(written.skip(6 - digits.len()) =~= digits);
    }
}

/// Text is given by its content where that was read whole, and refused where it was not; what
/// is not UTF-8, and everything that is neither text nor an image, is told by where it is; an
/// image is given as a file. A path that is not UTF-8 cannot be told.
pub proof fn law_attachments_are_given_by_their_media(
    path: Seq<u8>,
    media_type: Seq<char>,
    content: Option<Seq<u8>>,
    expected_bytes: int,
    identity: Seq<char>,
)
    ensures
        ({
            let form = attachment_form(path, media_type, content, expected_bytes, identity);
            let text = text_media(media_type);
            let whole = content matches Some(bytes) && bytes.len() == expected_bytes;
            let utf8 = content matches Some(bytes) && valid_utf8(bytes);
            &&& form is None <==> (text && !whole) || (!(text && utf8) && !valid_utf8(path))
            &&& form matches Some(AttachmentForm::Content(given)) ==> text && whole && utf8 && given
                == "Scherzo attachment "@ + identity + " ("@ + media_type + ") follows:\n"@
                + decode_utf8(content->Some_0)
            &&& form matches Some(AttachmentForm::Image(file)) ==> image_media(media_type) && !(text
                && utf8) && file == decode_utf8(path)
            &&& form matches Some(AttachmentForm::Notice(told)) ==> !image_media(media_type) && !(
            text && utf8) && told == "Scherzo attachment "@ + identity + " has media type "@
                + media_type + " and is available to runner tools at "@ + decode_utf8(path) + "."@
        }),
{
}

/// A file is sealed exactly if it is regular and nobody may do anything with it but its owner
/// read it.
pub proof fn law_sealed_files_can_only_be_read_by_their_owner(file: StagedFile)
    ensures
        sealed(file) <==> file.regular && file.mode & 255 == 0,
{
}

/// Each attachment adds its own size to that of those before it.
pub proof fn law_sizes_add_up(attachments: Seq<StagedAttachment>, count: nat)
    requires
        count < attachments.len(),
    ensures
        total_bytes(attachments, 0) == 0,
        attachments[count as int].file matches Some(file) ==> total_bytes(attachments, count + 1)
            == total_bytes(attachments, count) + file.bytes,
{
}

/// An attachment that is given is a sealed file, stands in its own directory, and all up to it
/// are not too large together; and it is given as its media asks.
pub proof fn law_given_attachments_are_sealed_and_in_place(
    attachments: Seq<StagedAttachment>,
    index: int,
    root: Seq<u8>,
    maximum_bytes: int,
)
    requires
        0 <= index < attachments.len(),
    ensures
        ({
            let given = admitted_form(attachments, index, root, maximum_bytes);
            let attachment = attachments[index];
            let identity = attachment_identity(index as nat);
            let in_place = crate::path::stands_in(
                attachment.path@,
                root,
                vstd::utf8::encode_utf8(identity),
            );
            let fits = total_bytes(attachments, (index + 1) as nat) <= maximum_bytes;
            &&& given is Some ==> in_place && fits && (attachment.file matches Some(file) && sealed(
                file,
            ))
            &&& in_place && fits ==> (attachment.file matches Some(file) ==> (sealed(file) ==> given
                == attachment_form(
                attachment.path@,
                attachment.media_type@,
                match attachment.content {
                    Some(bytes) => Some(bytes@),
                    None => None,
                },
                file.bytes as int,
                identity,
            )))
        }),
{
}

/// A turn is the message, then each attachment in its order; every one must be given, and
/// there must not be too many.
pub proof fn law_turns_are_message_and_attachments(
    material: TurnMaterial<'_>,
    items: Seq<JsonValue>,
)
    ensures
        material.makes(items) ==> items.len() == material.attachments@.len() + 1 && text_item(
            items[0],
            material.message@,
        ),
        material.admissible() <==> material.attachments@.len() <= material.maximum_attachments
            && forall|i: int|
            0 <= i < material.attachments@.len() ==> #[trigger] admitted_form(
                material.attachments@,
                i,
                material.attachment_root@,
                material.maximum_attachment_bytes as int,
            ) is Some,
        forall|i: int|
            material.makes(items) && 0 <= i < material.attachments@.len() ==> item_has_form(
                items[i + 1],
                (#[trigger] admitted_form(
                    material.attachments@,
                    i,
                    material.attachment_root@,
                    material.maximum_attachment_bytes as int,
                ))->Some_0,
            ),
{
}

/// A form is given as an item of its kind: contents and notices as text, images by their path.
pub proof fn law_items_have_the_kind_of_their_form(item: JsonValue, text: Seq<char>)
    ensures
        item_has_form(item, AttachmentForm::Content(text)) <==> text_item(item, text),
        item_has_form(item, AttachmentForm::Notice(text)) <==> text_item(item, text),
        item_has_form(item, AttachmentForm::Image(text)) <==> image_item(item, text),
{
}

/// A thread identifier is a UUID of version 7 in lowercase: 32 hexadecimal digits in groups of
/// 8, 4, 4, 4 and 12, the third group starting with 7 and the fourth with 8, 9, a or b.
pub proof fn law_thread_identifiers_are_uuids(value: Seq<u8>)
    ensures
        codex_thread_id(value) ==> {
            &&& value.len() == 36
            &&& value[8] == 45 && value[13] == 45 && value[18] == 45 && value[23] == 45
            &&& value[14] == 55
            &&& value[19] == 56 || value[19] == 57 || value[19] == 97 || value[19] == 98
            &&& forall|i: int|
                0 <= i < 36 && i != 8 && i != 13 && i != 18 && i != 23 ==> 48
                    <= #[trigger] value[i] <= 57 || 97 <= value[i] <= 102
        },
        value.len() == 36 && value[8] == 45 && value[13] == 45 && value[18] == 45 && value[23] == 45
            && value[14] == 55 && (value[19] == 56 || value[19] == 57 || value[19] == 97
            || value[19] == 98) && (forall|i: int|
            0 <= i < 36 && i != 8 && i != 13 && i != 18 && i != 23 ==> 48 <= #[trigger] value[i]
                <= 57 || 97 <= value[i] <= 102) ==> codex_thread_id(value),
{
    if codex_thread_id(value) {
        assert forall|i: int| 0 <= i < 36 implies crate::codex::rollout::thread_id_byte(
            i,
            #[trigger] value[i],
        ) by {}
    }
}

/// A rollout of a thread is a file `rollout-` that ends in a hyphen, the thread and `.jsonl`.
pub proof fn law_rollouts_are_named_for_their_thread(
    middle: Seq<u8>,
    thread_id: Seq<u8>,
)
    requires
        valid_utf8("rollout-".spec_bytes() + middle + ("-".spec_bytes() + thread_id
            + ".jsonl".spec_bytes())),
        "rollout-".spec_bytes().len() == 8,
    ensures
        rollout_name(
            "rollout-".spec_bytes() + middle + ("-".spec_bytes() + thread_id
                + ".jsonl".spec_bytes()),
            thread_id,
        ),
{
    let start = "rollout-".spec_bytes();
    let ending = "-".spec_bytes() + thread_id + ".jsonl".spec_bytes();
    let name = start + middle + ending;
    assert(name.take(8) =~= start);
    assert(name.skip(name.len() - ending.len()) =~= ending);
}

/// A rollout lies within the agent's home, under `sessions`, a year, a month and a day, in the
/// file of its thread. What lies outside is told before what is of another shape.
pub proof fn law_rollouts_lie_in_their_day(
    reported: Seq<u8>,
    home: Seq<u8>,
    thread_id: Seq<u8>,
)
    ensures
        ({
            let parts = path_parts(reported, 0);
            let home_parts = path_parts(home, 0);
            let inside = absolute(reported) && absolute(home) && home_parts.is_prefix_of(parts);
            let rest = parts.skip(home_parts.len() as int);
            let shaped = rest.len() == 5 && rest[0] == "sessions".spec_bytes() && rest[1].len() == 4
                && ascii_digits(rest[1]) && rest[2].len() == 2 && ascii_digits(rest[2])
                && rest[3].len() == 2 && ascii_digits(rest[3]) && rollout_name(rest[4], thread_id);
            rollout_location(reported, home, thread_id) == (if !inside {
                Err::<Seq<Seq<u8>>, CodexRolloutRejectionReason>(
                    CodexRolloutRejectionReason::PathOutsideStateBoundary,
                )
            } else if shaped {
                Ok(rest)
            } else {
                Err(CodexRolloutRejectionReason::PathShapeInvalid)
            })
        }),
{
}

/// A rollout is opened exactly if its name leads to one regular file and its descriptor to the
/// same one.
pub proof fn law_opened_rollouts_are_the_named_file(
    named: NamedFile,
    opened: Option<FileIdentity>,
    source: FileIdentity,
    bound: bool,
    parent_unchanged: bool,
)
    ensures
        judge_rollout_file_rule(named, opened) == Ok::<FileIdentity, CodexRolloutRejectionReason>(
            source,
        ) <==> named == (NamedFile::Present { regular: true, identity: source }) && opened == Some(
            source,
        ),
        judge_rollout_file_rule(named, opened) == Err::<FileIdentity, CodexRolloutRejectionReason>(
            CodexRolloutRejectionReason::RolloutMissing,
        ) <==> named is Missing,
        judge_rollout_file_rule(named, opened) == Err::<FileIdentity, CodexRolloutRejectionReason>(
            CodexRolloutRejectionReason::PathComponentInvalid,
        ) <==> named is Unavailable,
        judge_rollout_file_rule(named, opened) == Err::<FileIdentity, CodexRolloutRejectionReason>(
            CodexRolloutRejectionReason::UnexpectedFileKind,
        ) <==> (named matches NamedFile::Present { regular, .. } && !regular),
        judge_rollout_path_rule(bound, parent_unchanged, named, source) is None <==> bound
            && parent_unchanged && named == (NamedFile::Present {
            regular: true,
            identity: source,
        }),
        judge_rollout_path_rule(bound, parent_unchanged, named, source) matches Some(reason)
            ==> reason == CodexRolloutRejectionReason::PathReplaced,
        judge_rollout_parent_rule(bound, parent_unchanged) == (if !bound {
            Some(CodexRolloutRejectionReason::StateBoundaryUnavailable)
        } else if !parent_unchanged {
            Some(CodexRolloutRejectionReason::PathComponentInvalid)
        } else {
            None
        }),
{
}

/// A home that is there is used, one that is not is made, and one of which that cannot be
/// known is refused.
pub proof fn law_homes_are_used_or_made(status: PathStatus)
    ensures
        home_disposition_rule(status) == HomeAction::Validate <==> status == PathStatus::Present,
        home_disposition_rule(status) == HomeAction::Create <==> status == PathStatus::Missing,
        home_disposition_rule(status) == HomeAction::Refuse <==> status == PathStatus::Unknown,
{
}

/// A rollout is that of a thread exactly if its first record, which must not be too long, is
/// that of a session and names the thread twice.
pub proof fn law_rollouts_start_with_their_thread(rollout: Seq<u8>, thread_id: Seq<char>)
    ensures
        ({
            let record = first_record(rollout);
            identity_refusal(rollout, thread_id) is None <==> 1 <= record.len() <= 16 * 1024 * 1024
                && session_record(record) == Some(
                (Some("session_meta"@), Some(thread_id), Some(thread_id)),
            )
        }),
        identity_refusal(rollout, thread_id) matches Some(reason) ==> reason
            == CodexRolloutRejectionReason::ThreadIdentityMismatch,
{
}

/// Retention goes on to its next step exactly when the step before succeeded: it verifies its
/// binding, opens the rollout, validates whose it is, copies it, verifies its path, removes
/// the original, makes that last and keeps the copy.
pub proof fn law_retention_goes_step_by_step(state: RetentionState, event: RetentionEvent)
    ensures
        ({
            let (next, action) = retain_rollout_rule(state, event);
            let answered = event == (RetentionEvent::Answered { succeeded: true });
            let accepted = event == (RetentionEvent::Judged { refusal: None });
            &&& next.materialized == state.materialized
            &&& action == RetentionAction::OpenRollout <==> state.phase == RetentionPhase::Binding
                && answered
            &&& action == RetentionAction::ValidateIdentity <==> state.phase
                == RetentionPhase::Opening && accepted
            &&& action == RetentionAction::CopyRollout <==> state.phase
                == RetentionPhase::Identifying && accepted
            &&& action == RetentionAction::VerifyPath <==> state.phase == RetentionPhase::Copying
                && event is Copied
            &&& action == RetentionAction::RemoveSource <==> state.phase is Verifying && accepted
            &&& action == RetentionAction::SyncParent <==> state.phase is Removing && answered
            &&& action == RetentionAction::KeepCopy <==> state.phase is Syncing && answered
            &&& action == RetentionAction::OpenRollout ==> next.phase == RetentionPhase::Opening
            &&& action == RetentionAction::ValidateIdentity ==> next.phase
                == RetentionPhase::Identifying
            &&& action == RetentionAction::CopyRollout ==> next.phase == RetentionPhase::Copying
            &&& event matches RetentionEvent::Copied { complete } ==> (action
                == RetentionAction::VerifyPath ==> next.phase == (RetentionPhase::Verifying {
                complete,
            }))
            &&& state.phase matches RetentionPhase::Verifying { complete } ==> (action
                == RetentionAction::RemoveSource ==> next.phase == (RetentionPhase::Removing {
                complete,
            }))
            &&& state.phase matches RetentionPhase::Removing { complete } ==> (action
                == RetentionAction::SyncParent ==> next.phase == (RetentionPhase::Syncing {
                complete,
            }))
            &&& state.phase matches RetentionPhase::Syncing { complete } ==> (action
                == RetentionAction::KeepCopy ==> next.phase == (RetentionPhase::Keeping {
                complete,
            }))
            &&& action is Refuse || action == RetentionAction::Finish ==> next.phase
                == RetentionPhase::Ended
            &&& action == RetentionAction::Finish <==> (state.phase == (RetentionPhase::Keeping {
                complete: true,
            })) || (state.phase == RetentionPhase::Opening && !state.materialized && event == (
            RetentionEvent::Judged { refusal: Some(CodexRolloutRejectionReason::RolloutMissing) }))
        }),
{
}

/// Retention is refused for what went wrong: the reason of a judgement, or that of the step.
pub proof fn law_refused_retentions_tell_why(
    state: RetentionState,
    event: RetentionEvent,
    reason: CodexRolloutRejectionReason,
)
    requires
        retain_rollout_rule(state, event).1 == (RetentionAction::Refuse { reason }),
    ensures
        event matches RetentionEvent::Judged { refusal: Some(told) } ==> (state.phase
            == RetentionPhase::Opening || state.phase == RetentionPhase::Identifying || state.phase
            is Verifying ==> reason == told),
        state.phase == RetentionPhase::Binding ==> reason
            == CodexRolloutRejectionReason::StateBoundaryUnavailable,
        state.phase == RetentionPhase::Copying ==> reason
            == CodexRolloutRejectionReason::RetainedStorageUnavailable,
        state.phase is Removing || state.phase is Syncing ==> reason
            == CodexRolloutRejectionReason::AmbientRemovalFailed,
        state.phase is Keeping ==> reason == CodexRolloutRejectionReason::RolloutTooLarge
            && state.phase == (RetentionPhase::Keeping { complete: false }),
{
}

/// The first record of a rollout goes up to its first line feed, which belongs to it.
pub proof fn law_first_records_end_with_their_line(line: Seq<u8>, rest: Seq<u8>)
    requires
        forall|i: int| 0 <= i < line.len() ==> #[trigger] line[i] != '\n' as u8,
        line.len() < 16 * 1024 * 1024,
    ensures
        first_record(line + seq!['\n' as u8] + rest) == line + seq!['\n' as u8],
{
    let newline = seq!['\n' as u8];
    let rollout = line + newline + rest;
    let window = if rollout.len() <= MAXIMUM_SESSION_META_BYTES {
        rollout.len() as int
    } else {
        MAXIMUM_SESSION_META_BYTES + 1
    };
    crate::git_artifact::header::lemma_first_newline(rollout, 0, window);
    assert forall|i: int| 0 <= i < line.len() implies #[trigger] rollout[i] != '\n' as u8 by {
        assert(rollout[i] == line[i]);
    }
    assert(rollout[line.len() as int] == '\n' as u8);
    assert(rollout.take(line.len() as int + 1) =~= line + newline);
}

proof fn lemma_before_semicolon(text: Seq<char>, from: int, end: int)
    requires
        0 <= from <= end <= text.len(),
        forall|i: int| from <= i < end ==> #[trigger] text[i] != ';',
        end == text.len() || text[end] == ';',
    ensures
        crate::codex::input::before_semicolon(text, from) == end,
    decreases end - from,
{
    if from < end {
        assert(text[from] != ';');
        lemma_before_semicolon(text, from + 1, end);
    }
}

proof fn lemma_trimmed_start(front: Seq<char>, text: Seq<char>)
    requires
        forall|i: int| 0 <= i < front.len() ==> white_space(#[trigger] front[i]),
        text.len() == 0 || !white_space(text[0]),
    ensures
        crate::codex::input::trimmed_start(front + text) == text,
    decreases front.len(),
{
    if front.len() > 0 {
        assert((front + text)[0] == front[0]);
        assert((front + text).skip(1) =~= front.skip(1) + text);
        assert forall|i: int| 0 <= i < front.skip(1).len() implies white_space(
            #[trigger] front.skip(1)[i],
        ) by {
            assert(front.skip(1)[i] == front[i + 1]);
        }
        lemma_trimmed_start(front.skip(1), text);
    } else {
        assert(front + text =~= text);
    }
}

proof fn lemma_trimmed_end(text: Seq<char>, back: Seq<char>)
    requires
        forall|i: int| 0 <= i < back.len() ==> white_space(#[trigger] back[i]),
        text.len() == 0 || !white_space(text.last()),
    ensures
        crate::codex::input::trimmed_end(text + back) == text,
    decreases back.len(),
{
    if back.len() > 0 {
        assert((text + back).last() == back[back.len() - 1]);
        assert((text + back).drop_last() =~= text + back.drop_last());
        assert forall|i: int| 0 <= i < back.drop_last().len() implies white_space(
            #[trigger] back.drop_last()[i],
        ) by {
            assert(back.drop_last()[i] == back[i]);
        }
        lemma_trimmed_end(text, back.drop_last());
    } else {
        assert(text + back =~= text);
    }
}

/// What counts of a media type is what stands before its first semicolon, without the white
/// space around it.
pub proof fn law_parameters_and_spaces_do_not_count(
    front: Seq<char>,
    base: Seq<char>,
    back: Seq<char>,
    parameters: Seq<char>,
)
    requires
        base.len() > 0,
        !white_space(base[0]),
        !white_space(base.last()),
        forall|i: int| 0 <= i < base.len() ==> #[trigger] base[i] != ';',
        forall|i: int| 0 <= i < front.len() ==> white_space(#[trigger] front[i]),
        forall|i: int| 0 <= i < back.len() ==> white_space(#[trigger] back[i]),
        parameters.len() == 0 || parameters[0] == ';',
    ensures
        base_media_type(front + base + back + parameters) == base,
{
    let text = front + base + back + parameters;
    let end = (front.len() + base.len() + back.len()) as int;
    assert forall|i: int| 0 <= i < end implies #[trigger] text[i] != ';' by {
        if i < front.len() {
            assert(text[i] == front[i]);
            assert(white_space(front[i]));
        } else if i < front.len() + base.len() {
            assert(text[i] == base[i - front.len()]);
        } else {
            assert(text[i] == back[i - front.len() - base.len()]);
            assert(white_space(back[i - front.len() - base.len()]));
        }
    }
    if parameters.len() > 0 {
        assert(text[end] == parameters[0]);
    }
    lemma_before_semicolon(text, 0, end);
    assert(text.take(end) =~= front + (base + back));
    assert((base + back)[0] == base[0]);
    lemma_trimmed_start(front, base + back);
    lemma_trimmed_end(base, back);
}

/// What a launch is prepared with is what it is given: the arguments for its working and state
/// directories, the home that the environment names, and the turn that the material makes. It
/// is refused where the launch is, where something is not known, or where the material or the
/// home cannot be used.
pub proof fn law_launches_are_prepared_with_what_is_given(
    facts: LaunchFacts,
    expected_cwd: Option<&str>,
    environment: &Vec<(Vec<u8>, Vec<u8>)>,
    sqlite_home: Option<&str>,
    material: &TurnMaterial<'_>,
    outcome: Result<CodexAppServerV1LaunchPlan, AgentFailureCause>,
)
    requires
        call_ensures(
            prepare_launch,
            (facts, expected_cwd, environment, sqlite_home, material),
            outcome,
        ),
    ensures
        launch_refusal(facts) matches Some(cause) ==> (outcome matches Err(told) && told == cause),
        launch_refusal(facts) is None ==> (outcome matches Err(told) ==> told == launch_failed()),
        outcome is Ok <==> launch_refusal(facts) is None && expected_cwd is Some && sqlite_home
            is Some && material.admissible() && (home_path(environment@) matches Some(home)
            && absolute(home) && valid_utf8(home)),
        outcome matches Ok(plan) ==> plan@.expected_cwd == expected_cwd->Some_0@
            && plan@.sqlite_home == sqlite_home->Some_0@ && plan@.codex_home == decode_utf8(
            home_path(environment@)->Some_0,
        ) && plan@.arguments == argument_texts(
            crate::json_text::json_quoted(expected_cwd->Some_0@),
            crate::json_text::json_quoted(sqlite_home->Some_0@),
        ) && material.makes(plan@.initial_input),
{
}

/// A record starts the rollout of a thread exactly if it says that it is that of a session, and
/// names the thread as its own and as its session.
pub proof fn law_session_records_name_their_thread(
    record: &SessionRecord,
    thread_id: &str,
    matches: bool,
)
    requires
        call_ensures(session_record_matches, (record, thread_id), matches),
    ensures
        matches <==> (record.kind matches Some(kind) && kind@ == "session_meta"@) && (
        record.thread_id matches Some(thread) && thread@ == thread_id@) && (
        record.session_id matches Some(session) && session@ == thread_id@),
{
}

/// A rollout is staged only where it is kept apart from the agent's own state.
pub proof fn law_staging_is_apart_from_the_home(
    staging: &[u8],
    canonical_staging: &[u8],
    canonical_home: &[u8],
    allowed: bool,
)
    requires
        call_ensures(staging_allowed, (staging, canonical_staging, canonical_home), allowed),
    ensures
        allowed ==> !crate::path::lies_within(canonical_staging@, canonical_home@)
            && crate::path::same_absolute_path(canonical_staging@, staging@),
        !allowed ==> crate::path::lies_within(canonical_staging@, canonical_home@)
            || !crate::path::same_absolute_path(canonical_staging@, staging@),
{
}

/// Nothing but a file `rollout-` that ends in a hyphen, the thread and `.jsonl` is a rollout of
/// the thread.
pub proof fn law_other_files_are_no_rollouts(name: Seq<u8>, thread_id: Seq<u8>)
    requires
        rollout_name(name, thread_id),
    ensures
        valid_utf8(name),
        "rollout-".spec_bytes().is_prefix_of(name),
        ({
            let ending = "-".spec_bytes() + thread_id + ".jsonl".spec_bytes();
            name.len() >= ending.len() && name.skip(name.len() - ending.len()) == ending
        }),
{
    assert(name.take(8) == "rollout-".spec_bytes());
    assert("rollout-".spec_bytes().len() == name.take(8).len());
}

/// A record is read for its type and for the identifiers of its thread and session, each where
/// it stands; it tells nothing if one of them cannot be looked for.
pub proof fn law_records_are_read_where_their_parts_stand(record: Seq<u8>)
    ensures
        session_record(record) matches Some((kind, thread, session)) ==> json_text_at(
            record,
            "/type"@,
        ) == Some(kind) && json_text_at(record, "/payload/id"@) == Some(thread) && json_text_at(
            record,
            "/payload/session_id"@,
        ) == Some(session),
        session_record(record) is None <==> json_text_at(record, "/type"@) is None || json_text_at(
            record,
            "/payload/id"@,
        ) is None || json_text_at(record, "/payload/session_id"@) is None,
{
}

/// Two texts are the same but for case exactly if they are of the same length and each pair of
/// characters is the same but for case.
pub proof fn law_texts_are_compared_character_by_character(left: Seq<char>, right: Seq<char>)
    ensures
        same_ignoring_case(left, right) ==> left.len() == right.len() && forall|i: int|
            0 <= i < left.len() ==> ascii_lowercase(#[trigger] left[i]) == ascii_lowercase(
                right[i],
            ),
        same_ignoring_case(left, left),
        left == right ==> same_ignoring_case(left, right),
        left.len() != right.len() ==> !same_ignoring_case(left, right),
{
}

/// An item of text has the members `type`, which is `text`, and `text`; one of an image has
/// `type`, which is `localImage`, and `path`.
pub proof fn law_items_tell_their_type(item: JsonValue, content: Seq<char>)
    ensures
        text_item(item, content) <==> (item matches JsonValue::Object(members) && members@.len()
            == 2 && members@[0].0@ == "type"@ && (members@[0].1 matches JsonValue::String(kind)
            && kind@ == "text"@) && members@[1].0@ == "text"@ && (
        members@[1].1 matches JsonValue::String(text) && text@ == content)),
        image_item(item, content) <==> (item matches JsonValue::Object(members) && members@.len()
            == 2 && members@[0].0@ == "type"@ && (members@[0].1 matches JsonValue::String(kind)
            && kind@ == "localImage"@) && members@[1].0@ == "path"@ && (
        members@[1].1 matches JsonValue::String(path) && path@ == content)),
{
}

} // verus!

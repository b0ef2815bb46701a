//! What evidence tells: which code stands for which failure, when it fits together, and what
//! may be named in it.

use vstd::prelude::*;
use vstd::string::StringSliceAdditionalSpecFns;
use vstd::utf8::encode_utf8;

use crate::agent::AgentFailureCause;
use crate::bytes::bytes_before;
use crate::condition::WorkflowNodeRole;
use crate::evidence::{
    agent_code, agent_input_code, blocked_error, capture_code, checked_model,
    command_launch_code, command_preparation_code, execution_failure_model, failure_model,
    git_capture_code, input_preparation_code, node_identifier, output_capture_failure_model,
    output_reference, start_failure_model, value_identifier, working_directory_code,
    EvidenceError, FailureCode, FailureDetail, FailureModel, FailurePhase,
    NonExecutionCode, NonExecutionDetail, Prerequisite, PrerequisiteKind, PrerequisiteModel,
    PrimaryIssue, MAXIMUM_PREREQUISITES,
};
use crate::failure::{
    AgentInputStartFailure, CaptureFailureKind, CommandExecutionFailure, CommandLaunchFailure,
    CommandPreparationFailure, GitCaptureFailure, InputPreparationFailureKind,
    OutputCaptureFailure, StepExecutionFailure, StepFailureCause, StepStartFailure,
    WorkingDirectoryFailure,
};

verus! {

/// The code of an input that could not be prepared tells why.
pub proof fn law_input_codes_tell_their_cause(source: InputPreparationFailureKind)
    ensures
        match input_preparation_code(source) {
            FailureCode::InputInvalidName => source is InvalidInputName,
            FailureCode::InputValueCountLimit => source is ValueCountLimitExceeded,
            FailureCode::InputValueSizeLimit => source is ValueSizeLimitExceeded,
            FailureCode::InputTotalSizeLimit => source is TotalSizeLimitExceeded,
            FailureCode::InputCollectionOrdinalLimit => source is CollectionOrdinalLimitExceeded,
            FailureCode::InputTypeMismatch => source is ValueTypeMismatch,
            FailureCode::InputSourceUnavailable => source is SourceUnavailable,
            FailureCode::InputStagingUnavailable => source is StagingUnavailable,
            FailureCode::InputLiveLimit => source is LiveLimitExceeded,
            _ => false,
        },
{
}

/// The code of a working directory that could not be used tells why.
pub proof fn law_working_directory_codes_tell_their_cause(source: WorkingDirectoryFailure)
    ensures
        match working_directory_code(source) {
            FailureCode::ExecutionRootRebound => source is ExecutionRootRebound,
            FailureCode::WorkingDirectoryUnavailable => source is Unavailable,
            FailureCode::WorkingDirectoryEscape => source is EscapesExecutionRoot,
            FailureCode::WorkingDirectoryNotDirectory => source is NotDirectory,
            _ => false,
        },
{
}

/// The code of an agent's input that could not be prepared tells why.
pub proof fn law_agent_input_codes_tell_their_cause(source: AgentInputStartFailure)
    ensures
        match agent_input_code(source) {
            FailureCode::AgentStepUnavailable => source is StepUnavailable,
            FailureCode::AgentAdmissionUnavailable => source is AgentAdmissionUnavailable,
            FailureCode::AgentInputsUnavailable => source is InputsUnavailable,
            FailureCode::AgentInputMissingUpstream => source is MissingUpstreamValue,
            FailureCode::AgentInputTypeMismatch => source is ValueTypeMismatch,
            FailureCode::AgentSourceUnavailable => source is RetainedSourceUnavailable,
            FailureCode::AgentSourceTextInvalid => source is InvalidRetainedText,
            FailureCode::AgentResultSchemaUnavailable => source is ResultSchemaUnavailable,
            FailureCode::AgentValueModeInvalid => source is InvalidValueMode,
            FailureCode::AgentAttachmentCountLimit => source is AttachmentCountLimitExceeded,
            FailureCode::AgentAttachmentBytesLimit => source is AttachmentBytesLimitExceeded,
            FailureCode::ArtifactStagingMismatch => source is ArtifactStagingMismatch,
            FailureCode::AgentStagingMismatch => source is AgentStagingMismatch,
            FailureCode::AgentInputStagingUnavailable => source is StagingUnavailable,
            FailureCode::ExecutionRootRebound => source
                matches AgentInputStartFailure::WorkingDirectory(inner) && inner
                is ExecutionRootRebound,
            FailureCode::WorkingDirectoryUnavailable => source
                matches AgentInputStartFailure::WorkingDirectory(inner) && inner
                is Unavailable,
            FailureCode::WorkingDirectoryEscape => source
                matches AgentInputStartFailure::WorkingDirectory(inner) && inner
                is EscapesExecutionRoot,
            FailureCode::WorkingDirectoryNotDirectory => source
                matches AgentInputStartFailure::WorkingDirectory(inner) && inner
                is NotDirectory,
            _ => false,
        },
{
}

/// The code of a failed agent tells why; a failed setup is a failed start.
pub proof fn law_agent_codes_tell_their_cause(source: AgentFailureCause)
    ensures
        match agent_code(source) {
            FailureCode::HarnessStartFailed => source is HarnessStartFailed
                || source is HarnessSetupFailed,
            FailureCode::HarnessInputTooLarge => source is HarnessInputTooLarge,
            FailureCode::HarnessFailed => source is HarnessFailed,
            FailureCode::HarnessProtocolFailed => source is HarnessProtocolFailed,
            FailureCode::MissingResponse => source is MissingResponse,
            FailureCode::MissingResult => source is MissingResult,
            FailureCode::ResultValidationLimitExceeded => source is ResultValidationLimitExceeded,
            FailureCode::CapturedValueTooLarge => source is CapturedValueTooLarge,
            FailureCode::ResultSettlementFailed => source is ResultSettlementFailed,
            _ => false,
        },
{
}

/// The code of a command that could not be prepared tells why.
pub proof fn law_command_preparation_codes_tell_their_cause(source: CommandPreparationFailure)
    ensures
        match command_preparation_code(source) {
            FailureCode::CommandArgvInvalid => source is InvalidArgv,
            FailureCode::CommandPathUnconfigured => source is PathNotConfigured,
            FailureCode::ExecutableNotFound => source is ExecutableNotFound,
            FailureCode::ExecutableUnavailable => source is ExecutableUnavailable,
            _ => false,
        },
{
}

/// The code of a command that could not be launched tells why.
pub proof fn law_command_launch_codes_tell_their_cause(source: CommandLaunchFailure)
    ensures
        match command_launch_code(source) {
            FailureCode::CommandLaunchNotFound => source is NotFound,
            FailureCode::CommandLaunchPermissionDenied => source is PermissionDenied,
            FailureCode::CommandLaunchInvalidInput => source is InvalidInput,
            FailureCode::CommandLaunchFailed => source is Other,
            _ => false,
        },
{
}

/// The code of an output that could not be captured tells why.
pub proof fn law_capture_codes_tell_their_cause(source: CaptureFailureKind)
    ensures
        match capture_code(source) {
            FailureCode::OutputPathAbsolute => source is AbsolutePath,
            FailureCode::OutputPathEscape => source is LexicalEscape,
            FailureCode::OutputPathEmpty => source is EmptyPath,
            FailureCode::OutputMissing => source is Missing,
            FailureCode::OutputSymbolicLink => source is SymbolicLink,
            FailureCode::OutputParentNotDirectory => source is NotDirectory,
            FailureCode::OutputNotRegularFile => source is NotRegularFile,
            FailureCode::OutputSourceUnavailable => source is SourceUnavailable,
            FailureCode::OutputInvalidUtf8 => source is InvalidTextEncoding,
            FailureCode::OutputInvalidJson => source is InvalidJson,
            FailureCode::OutputDuplicateJsonMember => source is DuplicateJsonMember,
            FailureCode::OutputJsonSchemaMismatch => source is JsonSchemaMismatch,
            FailureCode::CapturedFileCountLimit => source is FileCountLimitExceeded,
            FailureCode::CapturedFileSizeLimit => source is FileSizeLimitExceeded,
            FailureCode::CapturedTotalSizeLimit => source is TotalSizeLimitExceeded,
            FailureCode::CapturedGitCarrierCountLimit => source is GitCarrierCountLimitExceeded,
            FailureCode::CapturedGitCarrierSizeLimit => source is GitCarrierSizeLimitExceeded,
            FailureCode::CapturedTotalGitCarrierSizeLimit => source
                is TotalGitCarrierSizeLimitExceeded,
            FailureCode::GitBundleGenerationFailed => source is CarrierProducerUnavailable,
            FailureCode::OutputStagingUnavailable => source is StagingUnavailable,
            _ => false,
        },
{
}

/// The code of a Git artifact that could not be captured tells why.
pub proof fn law_git_capture_codes_tell_their_cause(source: GitCaptureFailure)
    ensures
        match git_capture_code(source) {
            FailureCode::OutputStagingUnavailable => source is Cancelled
                || source is Artifact
                || source is StagingMismatch,
            FailureCode::GitExecutionRootRebound => source is ExecutionRootRebound,
            FailureCode::GitHeadUnavailable => source is HeadUnavailable,
            FailureCode::GitBaselineNotAncestor => source is BaselineNotAncestor,
            FailureCode::GitCleanlinessUnavailable => source is CleanlinessUnavailable,
            FailureCode::GitWorkspaceDirty => source is WorkspaceDirty,
            FailureCode::GitTreeUnavailable => source is TreeUnavailable,
            FailureCode::GitRequiredObjectsUnavailable => source is RequiredObjectsUnavailable,
            FailureCode::GitSourceAuthorityChanged => source is SourceAuthorityChanged,
            FailureCode::GitStructureLimitExceeded => source is GitStructureLimitExceeded,
            FailureCode::GitCommandTimedOut => source is CommandTimedOut,
            FailureCode::GitBundleGenerationFailed => source is BundleGenerationFailed,
            FailureCode::GitBundleProfileInvalid => source is BundleProfileInvalid,
            FailureCode::GitBundleVerificationFailed => source is BundleVerificationFailed,
            FailureCode::GitWorkspaceChanged => source is WorkspaceChanged,
            FailureCode::GitTemporaryStorageUnavailable => source is TemporaryStorageUnavailable,
            _ => false,
        },
{
}

/// While it runs, a step fails by its command, by its task or by its agent, and by nothing
/// else.
pub proof fn law_running_steps_fail_by_command_task_or_agent(code: FailureCode)
    ensures
        code.occurs_in(FailurePhase::Execution) <==> code == FailureCode::CommandExit
            || code == FailureCode::CommandWaitFailed
            || code == FailureCode::ExecutionTaskUnavailable
            || code == FailureCode::HarnessStartFailed
            || code == FailureCode::HarnessInputTooLarge
            || code == FailureCode::HarnessFailed
            || code == FailureCode::HarnessProtocolFailed
            || code == FailureCode::MissingResponse
            || code == FailureCode::MissingResult
            || code == FailureCode::ResultValidationLimitExceeded
            || code == FailureCode::CapturedValueTooLarge
            || code == FailureCode::ResultSettlementFailed,
{
}

/// While its outputs are captured, a step fails by one of them, by the capturing or for being
/// gone, and by nothing else.
pub proof fn law_captures_fail_by_their_outputs(code: FailureCode)
    ensures
        code.occurs_in(FailurePhase::OutputCapture) <==> code == FailureCode::StepUnavailable
            || code == FailureCode::OutputUnsupported
            || code == FailureCode::CaptureTaskUnavailable
            || code == FailureCode::OutputPathAbsolute
            || code == FailureCode::OutputPathEscape
            || code == FailureCode::OutputPathEmpty
            || code == FailureCode::OutputMissing
            || code == FailureCode::OutputSymbolicLink
            || code == FailureCode::OutputParentNotDirectory
            || code == FailureCode::OutputNotRegularFile
            || code == FailureCode::OutputSourceUnavailable
            || code == FailureCode::OutputInvalidUtf8
            || code == FailureCode::OutputInvalidJson
            || code == FailureCode::OutputDuplicateJsonMember
            || code == FailureCode::OutputJsonSchemaMismatch
            || code == FailureCode::CapturedFileCountLimit
            || code == FailureCode::CapturedFileSizeLimit
            || code == FailureCode::CapturedTotalSizeLimit
            || code == FailureCode::CapturedGitCarrierCountLimit
            || code == FailureCode::CapturedGitCarrierSizeLimit
            || code == FailureCode::CapturedTotalGitCarrierSizeLimit
            || code == FailureCode::GitExecutionRootRebound
            || code == FailureCode::GitHeadUnavailable
            || code == FailureCode::GitBaselineNotAncestor
            || code == FailureCode::GitCleanlinessUnavailable
            || code == FailureCode::GitWorkspaceDirty
            || code == FailureCode::GitTreeUnavailable
            || code == FailureCode::GitRequiredObjectsUnavailable
            || code == FailureCode::GitSourceAuthorityChanged
            || code == FailureCode::GitStructureLimitExceeded
            || code == FailureCode::GitCommandTimedOut
            || code == FailureCode::GitBundleGenerationFailed
            || code == FailureCode::GitBundleProfileInvalid
            || code == FailureCode::GitBundleVerificationFailed
            || code == FailureCode::GitWorkspaceChanged
            || code == FailureCode::GitTemporaryStorageUnavailable
            || code == FailureCode::OutputStagingUnavailable,
{
}

/// When it starts, a step fails by whatever does not concern a running step or a capture
/// alone; an agent can fail at the start as well, and a step can be gone.
pub proof fn law_starts_fail_by_the_rest(code: FailureCode)
    ensures
        code.occurs_in(FailurePhase::Start) <==> code == FailureCode::StepUnavailable || !(
        code.occurs_in(FailurePhase::OutputCapture)) && !(code == FailureCode::CommandExit
            || code == FailureCode::CommandWaitFailed
            || code == FailureCode::ExecutionTaskUnavailable),
{
}

/// The codes that concern the preparation of one input.
pub proof fn law_input_preparations_are_these(code: FailureCode)
    ensures
        code.is_input_preparation() <==> code == FailureCode::InputValueCountLimit
            || code == FailureCode::InputValueSizeLimit
            || code == FailureCode::InputTotalSizeLimit
            || code == FailureCode::InputCollectionOrdinalLimit
            || code == FailureCode::InputTypeMismatch
            || code == FailureCode::InputSourceUnavailable
            || code == FailureCode::InputStagingUnavailable
            || code == FailureCode::InputLiveLimit,
{
}

/// The evidence of a step that could not be started is of that phase and tells no output and
/// no exit. Only an input that could not be prepared is named, with its place in a
/// collection. The code is that of the cause.
pub proof fn law_failed_starts_tell_their_cause(source: StepStartFailure)
    ensures
        ({
            let model = start_failure_model(source);
            &&& model.phase == FailurePhase::Start
            &&& model.output is None && model.exit_code is None
            &&& !(source is InputPreparation) ==> model.input is None && model.collection_index
                is None
            &&& source matches StepStartFailure::InputPreparation(cause) ==> {
                &&& model.code == input_preparation_code(cause.kind)
                &&& model.input is Some <==> cause.input_identity is Some
                &&& cause.input_identity matches Some(name) ==> model.input == Some(name@)
                &&& model.collection_index is Some <==> cause.collection_index is Some
                &&& cause.collection_index matches Some(place) ==> model.collection_index == Some(
                    place as u64,
                )
            }
            &&& source is StepUnavailable ==> model.code == FailureCode::StepUnavailable
            &&& source is PreparationTaskUnavailable ==> model.code
                == FailureCode::PreparationTaskUnavailable
            &&& source is InputsUnavailable ==> model.code == FailureCode::InputsUnavailable
            &&& source matches StepStartFailure::AgentInput(cause) ==> model.code
                == agent_input_code(cause)
            &&& source matches StepStartFailure::Agent(cause) ==> model.code == agent_code(
                cause.cause,
            )
            &&& source is AgentRuntimeUnavailable ==> model.code
                == FailureCode::AgentRuntimeUnavailable
            &&& source is OutputsUnsupported ==> model.code == FailureCode::OutputsUnsupported
            &&& source matches StepStartFailure::WorkingDirectory(cause) ==> model.code
                == working_directory_code(cause)
            &&& source matches StepStartFailure::CommandPreparation(cause) ==> model.code
                == command_preparation_code(cause)
            &&& source matches StepStartFailure::CommandLaunch(cause) ==> model.code
                == command_launch_code(cause)
        }),
{
}

/// The evidence of a step that failed while it ran is of that phase and names no input and no
/// output. An unsuccessful exit is told as it was; nothing else tells one.
pub proof fn law_failed_executions_tell_their_cause(source: StepExecutionFailure)
    ensures
        ({
            let model = execution_failure_model(source);
            &&& model.phase == FailurePhase::Execution
            &&& model.input is None && model.collection_index is None && model.output is None
            &&& source matches StepExecutionFailure::Command(
                CommandExecutionFailure::UnsuccessfulExit { code },
            ) ==> model.code == FailureCode::CommandExit && model.exit_code == code
            &&& model.code != FailureCode::CommandExit ==> model.exit_code is None
            &&& model.code == FailureCode::CommandWaitFailed <==> source
                == StepExecutionFailure::Command(CommandExecutionFailure::Wait)
            &&& model.code == FailureCode::ExecutionTaskUnavailable <==> source is TaskUnavailable
            &&& source matches StepExecutionFailure::Agent(cause) ==> model.code == agent_code(
                cause.cause,
            )
        }),
{
}

/// The evidence of outputs that could not be captured is of that phase and names no input and
/// no exit. It names the output that was being captured, and no other.
pub proof fn law_failed_captures_tell_their_cause(source: OutputCaptureFailure)
    ensures
        ({
            let model = output_capture_failure_model(source);
            &&& model.phase == FailurePhase::OutputCapture
            &&& model.input is None && model.collection_index is None && model.exit_code is None
            &&& model.output is Some <==> source is Capture || source is Git
            &&& source matches OutputCaptureFailure::Capture(cause) ==> model.code == capture_code(
                cause.kind,
            ) && model.output == Some(cause.output_identity@)
            &&& source matches OutputCaptureFailure::Git { output, failure } ==> model.code
                == git_capture_code(failure) && model.output == Some(output@)
            &&& source is StepUnavailable ==> model.code == FailureCode::StepUnavailable
            &&& source is UnsupportedOutput ==> model.code == FailureCode::OutputUnsupported
            &&& source is TaskUnavailable ==> model.code == FailureCode::CaptureTaskUnavailable
        }),
{
}

/// A cause is evidence only in its own phase, and only if the parts of the evidence fit
/// together.
pub proof fn law_causes_belong_to_their_phase(phase: FailurePhase, source: StepFailureCause)
    ensures
        ({
            let evidence = failure_model(phase, source);
            let own = match source {
                StepFailureCause::Start(_) => FailurePhase::Start,
                StepFailureCause::Execution(_) => FailurePhase::Execution,
                StepFailureCause::OutputCapture(_) => FailurePhase::OutputCapture,
            };
            let told = match source {
                StepFailureCause::Start(cause) => start_failure_model(cause),
                StepFailureCause::Execution(cause) => execution_failure_model(cause),
                StepFailureCause::OutputCapture(cause) => output_capture_failure_model(cause),
            };
            &&& evidence == Err::<FailureModel, EvidenceError>(EvidenceError::InvalidFailureCause)
                <==> phase != own
            &&& evidence == Err::<FailureModel, EvidenceError>(EvidenceError::InvalidFailureDetail)
                <==> phase == own && !told.valid()
            &&& evidence == Ok::<FailureModel, EvidenceError>(told) <==> phase == own
                && told.valid()
        }),
{
}

/// Evidence fits together exactly if its code can come up in its phase; an input is named
/// where it concerns the preparation of one, and must be where its name was invalid; a place
/// in a collection is told only of a prepared input; an output is named exactly where it
/// concerns one; and an exit is told only of a command, and is no success.
pub proof fn law_evidence_fits_together(model: FailureModel)
    ensures
        model.valid() <==> {
            &&& model.code.occurs_in(model.phase)
            &&& model.code == FailureCode::InputInvalidName ==> model.input is Some
            &&& model.input matches Some(name) ==> if model.code == FailureCode::InputInvalidName {
                1 <= encode_utf8(name).len() <= 4096
            } else {
                model.code.is_input_preparation() && value_identifier(encode_utf8(name))
            }
            &&& model.collection_index is Some ==> model.code.is_input_preparation()
            &&& model.output is Some <==> model.phase == FailurePhase::OutputCapture && model.code
                != FailureCode::StepUnavailable && model.code != FailureCode::OutputUnsupported
                && model.code != FailureCode::CaptureTaskUnavailable
            &&& model.output matches Some(name) ==> value_identifier(encode_utf8(name))
            &&& model.exit_code matches Some(status) ==> model.code == FailureCode::CommandExit
                && status != 0
        },
        checked_model(model) == (if model.valid() {
            Ok::<FailureModel, EvidenceError>(model)
        } else {
            Err(EvidenceError::InvalidFailureDetail)
        }),
{
}

/// Evidence is made exactly of parts that fit together, and holds them as they are given.
pub proof fn law_evidence_is_made_of_fitting_parts(
    phase: FailurePhase,
    code: FailureCode,
    input: Option<String>,
    collection_index: Option<u64>,
    output: Option<String>,
    exit_code: Option<i32>,
    created: Result<FailureDetail, EvidenceError>,
)
    requires
        call_ensures(
            FailureDetail::new,
            (phase, code, input, collection_index, output, exit_code),
            created,
        ),
    ensures
        created matches Ok(detail) ==> detail@.valid() && detail.phase == phase && detail.code
            == code && detail@.collection_index == collection_index && detail@.exit_code
            == exit_code && (detail@.input is Some <==> input is Some) && (input matches Some(name)
            ==> detail@.input == Some(name@)) && (detail@.output is Some <==> output is Some) && (
        output matches Some(name) ==> detail@.output == Some(name@)),
        created matches Err(error) ==> error == EvidenceError::InvalidFailureDetail,
        created is Err ==> !(FailureModel {
            phase,
            code,
            input: match input {
                Some(name) => Some(name@),
                None => None,
            },
            collection_index,
            output: match output {
                Some(name) => Some(name@),
                None => None,
            },
            exit_code,
        }).valid(),
{
}

/// Evidence is told by what it holds.
pub proof fn law_details_are_modelled_faithfully(detail: FailureDetail)
    ensures
        detail@.phase == detail.phase,
        detail@.code == detail.code,
        detail@.collection_index == detail.collection_index,
        detail@.exit_code == detail.exit_code,
        detail.input matches Some(name) ==> detail@.input == Some(name@),
        detail.input is None ==> detail@.input is None,
        detail.output matches Some(name) ==> detail@.output == Some(name@),
        detail.output is None ==> detail@.output is None,
{
}

/// Whether a byte is a letter: A to Z or a to z.
pub open spec fn letter(byte: u8) -> bool {
    65 <= byte <= 90 || 97 <= byte <= 122
}

/// Node identifiers are built up from a letter by appending letters, digits, `_` and `-`, as
/// long as there are at most 64 characters, and in no other way.
pub proof fn law_node_identifiers_are_built_up(value: Seq<u8>, byte: u8)
    ensures
        !node_identifier(Seq::empty()),
        node_identifier(seq![byte]) <==> letter(byte),
        value.len() > 0 ==> (node_identifier(value.push(byte)) <==> node_identifier(value)
            && value.len() < 64 && (letter(byte) || 48 <= byte <= 57 || byte == 95 || byte == 45)),
{
    let longer = value.push(byte);
    if value.len() > 0 {
        if node_identifier(longer) {
            assert forall|i: int| 1 <= i < value.len() implies (crate::evidence::ascii_alphanumeric(
                #[trigger] value[i],
            ) || value[i] == '_' as u8 || value[i] == '-' as u8) by {
                assert(longer[i] == value[i]);
            }
            assert(longer[0] == value[0]);
            assert(longer[value.len() as int] == byte);
        }
        if node_identifier(value) && value.len() < 64 && (letter(byte) || 48 <= byte <= 57 || byte
            == 95 || byte == 45) {
            assert forall|i: int| 1 <= i < longer.len() implies (
            crate::evidence::ascii_alphanumeric(#[trigger] longer[i]) || longer[i] == '_' as u8
                || longer[i] == '-' as u8) by {
                if i < value.len() {
                    assert(longer[i] == value[i]);
                }
            }
        }
    }
}

/// Value identifiers are built up from a lowercase letter by appending letters and digits, as
/// long as there are at most 64 characters, and in no other way.
pub proof fn law_value_identifiers_are_built_up(value: Seq<u8>, byte: u8)
    ensures
        !value_identifier(Seq::empty()),
        value_identifier(seq![byte]) <==> 97 <= byte <= 122,
        value.len() > 0 ==> (value_identifier(value.push(byte)) <==> value_identifier(value)
            && value.len() < 64 && (letter(byte) || 48 <= byte <= 57)),
{
    let longer = value.push(byte);
    if value.len() > 0 {
        if value_identifier(longer) {
            assert forall|i: int| 1 <= i < value.len() implies crate::evidence::ascii_alphanumeric(
                #[trigger] value[i],
            ) by {
                assert(longer[i] == value[i]);
            }
            assert(longer[0] == value[0]);
            assert(longer[value.len() as int] == byte);
        }
        if value_identifier(value) && value.len() < 64 && (letter(byte) || 48 <= byte <= 57) {
            assert forall|i: int| 1 <= i < longer.len() implies crate::evidence::ascii_alphanumeric(
                #[trigger] longer[i],
            ) by {
                if i < value.len() {
                    assert(longer[i] == value[i]);
                }
            }
        }
    }
}

/// The reference to an output is `outputs.`, a node, a point and a value; nothing else is one.
pub proof fn law_output_references_name_node_and_value(
    node: Seq<u8>,
    value: Seq<u8>,
    reference: Seq<u8>,
)
    ensures
        node_identifier(node) && value_identifier(value) ==> output_reference(
            "outputs.".spec_bytes() + node + seq!['.' as u8] + value,
        ),
        output_reference(reference) ==> exists|front: Seq<u8>, back: Seq<u8>|
            #![trigger node_identifier(front), value_identifier(back)]
            node_identifier(front) && value_identifier(back) && reference
                == "outputs.".spec_bytes() + front + seq!['.' as u8] + back,
{
    assert("outputs.".spec_bytes() + node + seq!['.' as u8] + value
        == crate::evidence::output_reference_text(node, value));
    if output_reference(reference) {
        let (front, back) = choose|front: Seq<u8>, back: Seq<u8>|
            node_identifier(front) && value_identifier(back) && reference
                == #[trigger] crate::evidence::output_reference_text(front, back);
        assert(node_identifier(front) && value_identifier(back));
    }
}

/// Prerequisites on control stand before those of conditions, and these before those of
/// bodies; within a kind the names decide by their bytes.
pub proof fn law_prerequisites_stand_by_kind_then_name(
    left: PrerequisiteModel,
    right: PrerequisiteModel,
)
    ensures
        left.kind == PrerequisiteKind::Control && right.kind != PrerequisiteKind::Control
            ==> left.before(right) && !right.before(left),
        left.kind == PrerequisiteKind::Condition && right.kind == PrerequisiteKind::Body
            ==> left.before(right) && !right.before(left),
        left.kind == right.kind ==> (left.before(right) <==> bytes_before(
            encode_utf8(left.target),
            encode_utf8(right.target),
        )),
{
}

/// A prerequisite names something; one that is not on control names the output of a node.
pub proof fn law_prerequisites_name_what_is_missing(prerequisite: Prerequisite)
    ensures
        match prerequisite {
            Prerequisite::Control { node } => prerequisite@.kind == PrerequisiteKind::Control
                && prerequisite@.target == node@ && (prerequisite@.valid() <==> node@.len() > 0),
            Prerequisite::Condition { reference } => prerequisite@.kind
                == PrerequisiteKind::Condition && prerequisite@.target == reference@ && (
            prerequisite@.valid() <==> reference@.len() > 0 && output_reference(
                encode_utf8(reference@),
            )),
            Prerequisite::Body { reference } => prerequisite@.kind == PrerequisiteKind::Body
                && prerequisite@.target == reference@ && (prerequisite@.valid()
                <==> reference@.len() > 0 && output_reference(encode_utf8(reference@))),
        },
{
}

/// A node is blocked by one to 1024 different prerequisites that each name something; another
/// number is told before a prerequisite that names nothing.
pub proof fn law_blocked_nodes_miss_some_prerequisites(prerequisites: Seq<PrerequisiteModel>)
    ensures
        ({
            let count = prerequisites.to_set().len();
            let error = blocked_error(prerequisites);
            &&& error == Some(EvidenceError::InvalidPrerequisiteCount) <==> !(1 <= count <= 1024)
            &&& error == Some(EvidenceError::InvalidPrerequisite) <==> 1 <= count <= 1024
                && exists|i: int|
                0 <= i < prerequisites.len() && !(#[trigger] prerequisites[i]).valid()
            &&& error is None ==> forall|i: int|
                0 <= i < prerequisites.len() ==> (#[trigger] prerequisites[i]).valid()
        }),
        MAXIMUM_PREREQUISITES == 1024,
{
}

/// A step is not run because of a failure, a finalizer because it was not called for; neither
/// for the other's reason.
pub proof fn law_only_fitting_reasons_keep_nodes_from_running(
    role: WorkflowNodeRole,
    code: NonExecutionCode,
    created: Result<NonExecutionDetail, EvidenceError>,
)
    requires
        call_ensures(NonExecutionDetail::for_role, (role, code), created),
    ensures
        created == Ok::<NonExecutionDetail, EvidenceError>(NonExecutionDetail { code }) <==> (role
            == WorkflowNodeRole::Step && code == NonExecutionCode::FailureStop) || (role
            == WorkflowNodeRole::Finalizer && code
            == NonExecutionCode::FinalizerTriggerNotSelected),
        created is Err ==> created == Err::<NonExecutionDetail, EvidenceError>(
            EvidenceError::NodeRoleMismatch,
        ),
{
}

/// An issue is that of a failed or of a blocked node, as its evidence says.
pub proof fn law_issues_are_of_their_evidence(issue: PrimaryIssue)
    ensures
        issue.consistent() <==> (issue.state is Failed <==> issue.detail is Failed),
{
}

} // verus!

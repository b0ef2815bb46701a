//! The evidence that a run keeps of nodes that failed, were blocked, did not run
//! or were cancelled.

use vstd::prelude::*;
use vstd::string::StringSliceAdditionalSpecFns;
use vstd::utf8::encode_utf8;

use crate::agent::{AgentFailure, AgentFailureCause};
use crate::bytes::{bytes_before, bytes_equal, law_byte_order_is_total, stands_before};
use crate::condition::{WorkflowNode, WorkflowNodeRole};
use crate::failure::{
    AgentInputStartFailure, CaptureFailureKind, CommandExecutionFailure, CommandLaunchFailure,
    CommandPreparationFailure, GitCaptureFailure, InputPreparationFailureKind, OutputCaptureFailure,
    StepExecutionFailure, StepFailureCause, StepStartFailure, WorkingDirectoryFailure,
};

verus! {

/// The largest accepted number of unsatisfied prerequisites.
pub const MAXIMUM_PREREQUISITES: usize = 1_024;

/// The part of a step's run that failed.
#[derive(Clone, Copy, Debug, PartialEq, Eq, Structural)]
pub enum FailurePhase {
    Start,
    Execution,
    OutputCapture,
}

impl FailurePhase {
    /// The name that evidence gives the phase.
    pub open spec fn name(self) -> Seq<char> {
        match self {
            FailurePhase::Start => "start"@,
            FailurePhase::Execution => "execution"@,
            FailurePhase::OutputCapture => "output_capture"@,
        }
    }

    /// The name that evidence gives the phase.
    pub fn as_str(self) -> (name: &'static str)
        ensures
            name@ == self.name(),
    {
        match self {
            FailurePhase::Start => "start",
            FailurePhase::Execution => "execution",
            FailurePhase::OutputCapture => "output_capture",
        }
    }
}

/// What failed.
#[derive(Clone, Copy, Debug, PartialEq, Eq, Structural)]
pub enum FailureCode {
    StepUnavailable,
    PreparationTaskUnavailable,
    InputsUnavailable,
    OutputsUnsupported,
    AgentRuntimeUnavailable,
    AgentStepUnavailable,
    AgentAdmissionUnavailable,
    AgentInputsUnavailable,
    AgentInputMissingUpstream,
    AgentInputTypeMismatch,
    AgentSourceUnavailable,
    AgentSourceTextInvalid,
    AgentResultSchemaUnavailable,
    AgentValueModeInvalid,
    AgentAttachmentCountLimit,
    AgentAttachmentBytesLimit,
    ArtifactStagingMismatch,
    AgentStagingMismatch,
    AgentInputStagingUnavailable,
    HarnessStartFailed,
    HarnessInputTooLarge,
    HarnessFailed,
    HarnessProtocolFailed,
    MissingResponse,
    MissingResult,
    ResultValidationLimitExceeded,
    CapturedValueTooLarge,
    ResultSettlementFailed,
    InputInvalidName,
    InputValueCountLimit,
    InputValueSizeLimit,
    InputTotalSizeLimit,
    InputCollectionOrdinalLimit,
    InputTypeMismatch,
    InputSourceUnavailable,
    InputStagingUnavailable,
    InputLiveLimit,
    ExecutionRootRebound,
    WorkingDirectoryUnavailable,
    WorkingDirectoryEscape,
    WorkingDirectoryNotDirectory,
    CommandArgvInvalid,
    CommandPathUnconfigured,
    ExecutableNotFound,
    ExecutableUnavailable,
    CommandLaunchNotFound,
    CommandLaunchPermissionDenied,
    CommandLaunchInvalidInput,
    CommandLaunchFailed,
    CommandExit,
    CommandWaitFailed,
    ExecutionTaskUnavailable,
    OutputUnsupported,
    CaptureTaskUnavailable,
    OutputPathAbsolute,
    OutputPathEscape,
    OutputPathEmpty,
    OutputMissing,
    OutputSymbolicLink,
    OutputParentNotDirectory,
    OutputNotRegularFile,
    OutputSourceUnavailable,
    OutputInvalidUtf8,
    OutputInvalidJson,
    OutputDuplicateJsonMember,
    OutputJsonSchemaMismatch,
    CapturedFileCountLimit,
    CapturedFileSizeLimit,
    CapturedTotalSizeLimit,
    CapturedGitCarrierCountLimit,
    CapturedGitCarrierSizeLimit,
    CapturedTotalGitCarrierSizeLimit,
    GitExecutionRootRebound,
    GitHeadUnavailable,
    GitBaselineNotAncestor,
    GitCleanlinessUnavailable,
    GitWorkspaceDirty,
    GitTreeUnavailable,
    GitRequiredObjectsUnavailable,
    GitSourceAuthorityChanged,
    GitStructureLimitExceeded,
    GitCommandTimedOut,
    GitBundleGenerationFailed,
    GitBundleProfileInvalid,
    GitBundleVerificationFailed,
    GitWorkspaceChanged,
    GitTemporaryStorageUnavailable,
    OutputStagingUnavailable,
}

impl FailureCode {
    /// Whether the code is one of an agent harness, which can fail at the start
    /// and while it executes.
    pub open spec fn is_agent_failure(self) -> bool {
        match self {
            FailureCode::HarnessStartFailed
            | FailureCode::HarnessInputTooLarge
            | FailureCode::HarnessFailed
            | FailureCode::HarnessProtocolFailed
            | FailureCode::MissingResponse
            | FailureCode::MissingResult
            | FailureCode::ResultValidationLimitExceeded
            | FailureCode::CapturedValueTooLarge
            | FailureCode::ResultSettlementFailed => true,
            _ => false,
        }
    }

    /// Whether the code is one of a running step.
    pub open spec fn is_execution_failure(self) -> bool {
        match self {
            FailureCode::CommandExit
            | FailureCode::CommandWaitFailed
            | FailureCode::ExecutionTaskUnavailable => true,
            _ => false,
        }
    }

    /// Whether the code is one of capturing outputs.
    pub open spec fn is_output_failure(self) -> bool {
        match self {
            FailureCode::OutputUnsupported
            | FailureCode::CaptureTaskUnavailable
            | FailureCode::OutputPathAbsolute
            | FailureCode::OutputPathEscape
            | FailureCode::OutputPathEmpty
            | FailureCode::OutputMissing
            | FailureCode::OutputSymbolicLink
            | FailureCode::OutputParentNotDirectory
            | FailureCode::OutputNotRegularFile
            | FailureCode::OutputSourceUnavailable
            | FailureCode::OutputInvalidUtf8
            | FailureCode::OutputInvalidJson
            | FailureCode::OutputDuplicateJsonMember
            | FailureCode::OutputJsonSchemaMismatch
            | FailureCode::CapturedFileCountLimit
            | FailureCode::CapturedFileSizeLimit
            | FailureCode::CapturedTotalSizeLimit
            | FailureCode::CapturedGitCarrierCountLimit
            | FailureCode::CapturedGitCarrierSizeLimit
            | FailureCode::CapturedTotalGitCarrierSizeLimit
            | FailureCode::GitExecutionRootRebound
            | FailureCode::GitHeadUnavailable
            | FailureCode::GitBaselineNotAncestor
            | FailureCode::GitCleanlinessUnavailable
            | FailureCode::GitWorkspaceDirty
            | FailureCode::GitTreeUnavailable
            | FailureCode::GitRequiredObjectsUnavailable
            | FailureCode::GitSourceAuthorityChanged
            | FailureCode::GitStructureLimitExceeded
            | FailureCode::GitCommandTimedOut
            | FailureCode::GitBundleGenerationFailed
            | FailureCode::GitBundleProfileInvalid
            | FailureCode::GitBundleVerificationFailed
            | FailureCode::GitWorkspaceChanged
            | FailureCode::GitTemporaryStorageUnavailable
            | FailureCode::OutputStagingUnavailable => true,
            _ => false,
        }
    }

    /// Whether the code is one of preparing an input.
    pub open spec fn is_input_preparation(self) -> bool {
        match self {
            FailureCode::InputValueCountLimit
            | FailureCode::InputValueSizeLimit
            | FailureCode::InputTotalSizeLimit
            | FailureCode::InputCollectionOrdinalLimit
            | FailureCode::InputTypeMismatch
            | FailureCode::InputSourceUnavailable
            | FailureCode::InputStagingUnavailable
            | FailureCode::InputLiveLimit => true,
            _ => false,
        }
    }

    /// Whether a step can fail with the code in `phase`.
    pub open spec fn occurs_in(self, phase: FailurePhase) -> bool {
        if self == FailureCode::StepUnavailable {
            phase != FailurePhase::Execution
        } else if self.is_agent_failure() {
            phase != FailurePhase::OutputCapture
        } else if self.is_execution_failure() {
            phase == FailurePhase::Execution
        } else if self.is_output_failure() {
            phase == FailurePhase::OutputCapture
        } else {
            phase == FailurePhase::Start
        }
    }

    /// Whether a failure with the code names the output that it concerns.
    pub open spec fn names_output(self, phase: FailurePhase) -> bool {
        &&& phase == FailurePhase::OutputCapture
        &&& self != FailureCode::StepUnavailable
        &&& self != FailureCode::OutputUnsupported
        &&& self != FailureCode::CaptureTaskUnavailable
    }

    /// Whether a step can fail with the code in `phase`.
    fn may_occur_in(self, phase: FailurePhase) -> (possible: bool)
        ensures
            possible == self.occurs_in(phase),
    {
        match self {
            FailureCode::StepUnavailable => phase != FailurePhase::Execution,
            FailureCode::HarnessStartFailed
            | FailureCode::HarnessInputTooLarge
            | FailureCode::HarnessFailed
            | FailureCode::HarnessProtocolFailed
            | FailureCode::MissingResponse
            | FailureCode::MissingResult
            | FailureCode::ResultValidationLimitExceeded
            | FailureCode::CapturedValueTooLarge
            | FailureCode::ResultSettlementFailed => phase != FailurePhase::OutputCapture,
            FailureCode::CommandExit
            | FailureCode::CommandWaitFailed
            | FailureCode::ExecutionTaskUnavailable => phase == FailurePhase::Execution,
            FailureCode::OutputUnsupported
            | FailureCode::CaptureTaskUnavailable
            | FailureCode::OutputPathAbsolute
            | FailureCode::OutputPathEscape
            | FailureCode::OutputPathEmpty
            | FailureCode::OutputMissing
            | FailureCode::OutputSymbolicLink
            | FailureCode::OutputParentNotDirectory
            | FailureCode::OutputNotRegularFile
            | FailureCode::OutputSourceUnavailable
            | FailureCode::OutputInvalidUtf8
            | FailureCode::OutputInvalidJson
            | FailureCode::OutputDuplicateJsonMember
            | FailureCode::OutputJsonSchemaMismatch
            | FailureCode::CapturedFileCountLimit
            | FailureCode::CapturedFileSizeLimit
            | FailureCode::CapturedTotalSizeLimit
            | FailureCode::CapturedGitCarrierCountLimit
            | FailureCode::CapturedGitCarrierSizeLimit
            | FailureCode::CapturedTotalGitCarrierSizeLimit
            | FailureCode::GitExecutionRootRebound
            | FailureCode::GitHeadUnavailable
            | FailureCode::GitBaselineNotAncestor
            | FailureCode::GitCleanlinessUnavailable
            | FailureCode::GitWorkspaceDirty
            | FailureCode::GitTreeUnavailable
            | FailureCode::GitRequiredObjectsUnavailable
            | FailureCode::GitSourceAuthorityChanged
            | FailureCode::GitStructureLimitExceeded
            | FailureCode::GitCommandTimedOut
            | FailureCode::GitBundleGenerationFailed
            | FailureCode::GitBundleProfileInvalid
            | FailureCode::GitBundleVerificationFailed
            | FailureCode::GitWorkspaceChanged
            | FailureCode::GitTemporaryStorageUnavailable
            | FailureCode::OutputStagingUnavailable => phase == FailurePhase::OutputCapture,
            _ => phase == FailurePhase::Start,
        }
    }

    /// Whether the code is one of preparing an input.
    fn concerns_input_preparation(self) -> (concerns: bool)
        ensures
            concerns == self.is_input_preparation(),
    {
        match self {
            FailureCode::InputValueCountLimit
            | FailureCode::InputValueSizeLimit
            | FailureCode::InputTotalSizeLimit
            | FailureCode::InputCollectionOrdinalLimit
            | FailureCode::InputTypeMismatch
            | FailureCode::InputSourceUnavailable
            | FailureCode::InputStagingUnavailable
            | FailureCode::InputLiveLimit => true,
            _ => false,
        }
    }
}

/// Whether `byte` is an ASCII letter.
pub open spec fn ascii_letter(byte: u8) -> bool {
    'a' as u8 <= byte <= 'z' as u8 || 'A' as u8 <= byte <= 'Z' as u8
}

/// Whether `byte` is an ASCII letter or digit.
pub open spec fn ascii_alphanumeric(byte: u8) -> bool {
    ascii_letter(byte) || '0' as u8 <= byte <= '9' as u8
}

/// Whether `value` identifies a node: a letter, then letters, digits, `_` and
/// `-`, at most 64 characters in all.
pub open spec fn node_identifier(value: Seq<u8>) -> bool {
    &&& 0 < value.len() <= 64
    &&& ascii_letter(value[0])
    &&& forall|i: int|
        1 <= i < value.len() ==> (ascii_alphanumeric(#[trigger] value[i]) || value[i] == '_' as u8
            || value[i] == '-' as u8)
}

/// Whether `value` identifies a value: a lowercase letter, then letters and
/// digits, at most 64 characters in all.
pub open spec fn value_identifier(value: Seq<u8>) -> bool {
    &&& 0 < value.len() <= 64
    &&& 'a' as u8 <= value[0] <= 'z' as u8
    &&& forall|i: int| 1 <= i < value.len() ==> ascii_alphanumeric(#[trigger] value[i])
}

/// The reference to the output of a node.
pub open spec fn output_reference_text(node: Seq<u8>, output: Seq<u8>) -> Seq<u8> {
    "outputs.".spec_bytes() + node + seq!['.' as u8] + output
}

/// Whether `value` refers to an output of a node.
pub open spec fn output_reference(value: Seq<u8>) -> bool {
    exists|node: Seq<u8>, output: Seq<u8>|
        node_identifier(node) && value_identifier(output) && value
            == #[trigger] output_reference_text(node, output)
}

/// The parts of a failure's evidence.
#[verifier::ext_equal]
pub struct FailureModel {
    pub phase: FailurePhase,
    pub code: FailureCode,
    pub input: Option<Seq<char>>,
    pub collection_index: Option<u64>,
    pub output: Option<Seq<char>>,
    pub exit_code: Option<i32>,
}

impl FailureModel {
    /// A failure of which nothing but its phase and code is known.
    pub open spec fn of_code(phase: FailurePhase, code: FailureCode) -> FailureModel {
        FailureModel {
            phase,
            code,
            input: None,
            collection_index: None,
            output: None,
            exit_code: None,
        }
    }

    /// Whether an input is named exactly where one may or must be.
    pub open spec fn input_fits(self) -> bool {
        match self.input {
            None => self.code != FailureCode::InputInvalidName,
            Some(input) => if self.code == FailureCode::InputInvalidName {
                0 < encode_utf8(input).len() <= 4_096
            } else {
                self.code.is_input_preparation() && value_identifier(encode_utf8(input))
            },
        }
    }

    /// Whether an output is named exactly where one must be.
    pub open spec fn output_fits(self) -> bool {
        match self.output {
            None => !self.code.names_output(self.phase),
            Some(output) => self.code.names_output(self.phase) && value_identifier(
                encode_utf8(output),
            ),
        }
    }

    /// Whether the parts fit together.
    pub open spec fn valid(self) -> bool {
        &&& self.code.occurs_in(self.phase)
        &&& self.input_fits()
        &&& self.collection_index is Some ==> self.code.is_input_preparation()
        &&& self.output_fits()
        &&& self.exit_code matches Some(status) ==> self.code == FailureCode::CommandExit && status
            != 0
    }
}

/// Why evidence was refused.
#[derive(Clone, Copy, Debug, PartialEq, Eq, Structural)]
pub enum EvidenceError {
    InvalidFailureCause,
    InvalidFailureDetail,
    InvalidPrerequisite,
    InvalidPrerequisiteCount,
    NodeRoleMismatch,
}

impl EvidenceError {
    /// What is said of the refusal.
    pub open spec fn text(self) -> Seq<char> {
        match self {
            EvidenceError::InvalidFailureCause => {
                "invalid workflow node evidence: InvalidFailureCause"@
            },
            EvidenceError::InvalidFailureDetail => {
                "invalid workflow node evidence: InvalidFailureDetail"@
            },
            EvidenceError::InvalidPrerequisite => {
                "invalid workflow node evidence: InvalidPrerequisite"@
            },
            EvidenceError::InvalidPrerequisiteCount => {
                "invalid workflow node evidence: InvalidPrerequisiteCount"@
            },
            EvidenceError::NodeRoleMismatch => "invalid workflow node evidence: NodeRoleMismatch"@,
        }
    }

    /// What is said of the refusal.
    pub fn message(self) -> (message: &'static str)
        ensures
            message@ == self.text(),
    {
        match self {
            EvidenceError::InvalidFailureCause => {
                "invalid workflow node evidence: InvalidFailureCause"
            },
            EvidenceError::InvalidFailureDetail => {
                "invalid workflow node evidence: InvalidFailureDetail"
            },
            EvidenceError::InvalidPrerequisite => {
                "invalid workflow node evidence: InvalidPrerequisite"
            },
            EvidenceError::InvalidPrerequisiteCount => {
                "invalid workflow node evidence: InvalidPrerequisiteCount"
            },
            EvidenceError::NodeRoleMismatch => "invalid workflow node evidence: NodeRoleMismatch",
        }
    }
}

/// The evidence of a failure.
#[derive(Clone, Debug, PartialEq, Eq)]
pub struct FailureDetail {
    pub phase: FailurePhase,
    pub code: FailureCode,
    pub input: Option<String>,
    pub collection_index: Option<u64>,
    pub output: Option<String>,
    pub exit_code: Option<i32>,
}

/// The text of a string that may be there.
pub open spec fn optional_text(string: Option<String>) -> Option<Seq<char>> {
    match string {
        Some(string) => Some(string@),
        None => None,
    }
}

impl View for FailureDetail {
    type V = FailureModel;

    open spec fn view(&self) -> FailureModel {
        FailureModel {
            phase: self.phase,
            code: self.code,
            input: optional_text(self.input),
            collection_index: self.collection_index,
            output: optional_text(self.output),
            exit_code: self.exit_code,
        }
    }
}

impl FailureDetail {
    /// A failure of which nothing but its phase and code is known.
    pub fn code(phase: FailurePhase, code: FailureCode) -> (detail: FailureDetail)
        ensures
            detail@ == FailureModel::of_code(phase, code),
    {
        FailureDetail {
            phase,
            code,
            input: None,
            collection_index: None,
            output: None,
            exit_code: None,
        }
    }

    /// The evidence that the parts make, if they fit together.
    pub fn new(
        phase: FailurePhase,
        code: FailureCode,
        input: Option<String>,
        collection_index: Option<u64>,
        output: Option<String>,
        exit_code: Option<i32>,
    ) -> (created: Result<FailureDetail, EvidenceError>)
        ensures
            ({
                let model = FailureModel {
                    phase,
                    code,
                    input: optional_text(input),
                    collection_index,
                    output: optional_text(output),
                    exit_code,
                };
                match created {
                    Ok(detail) => model.valid() && detail@ == model,
                    Err(error) => !model.valid() && error == EvidenceError::InvalidFailureDetail,
                }
            }),
    {
        let detail = FailureDetail { phase, code, input, collection_index, output, exit_code };
        detail.validate()?;
        Ok(detail)
    }

    /// Whether the parts fit together.
    pub fn validate(&self) -> (outcome: Result<(), EvidenceError>)
        ensures
            outcome == (if self@.valid() {
                Ok(())
            } else {
                Err(EvidenceError::InvalidFailureDetail)
            }),
    {
        if !self.code.may_occur_in(self.phase) {
            return Err(EvidenceError::InvalidFailureDetail);
        }
        let invalid_name: bool = self.code == FailureCode::InputInvalidName;
        let input_preparation: bool = self.code.concerns_input_preparation();
        let output_failure: bool = self.phase == FailurePhase::OutputCapture && self.code
            != FailureCode::StepUnavailable && self.code != FailureCode::OutputUnsupported
            && self.code != FailureCode::CaptureTaskUnavailable;
        let input_valid: bool = match &self.input {
            None => !invalid_name,
            Some(input) => {
                let bytes: &[u8] = input.as_str().as_bytes();
                if invalid_name {
                    bytes.len() > 0 && bytes.len() <= 4_096
                } else {
                    input_preparation && is_workflow_value_identifier(input.as_str())
                }
            },
        };
        let output_valid: bool = match &self.output {
            None => !output_failure,
            Some(output) => output_failure && is_workflow_value_identifier(output.as_str()),
        };
        let exit_valid: bool = match self.exit_code {
            None => true,
            Some(status) => self.code == FailureCode::CommandExit && status != 0,
        };
        if !input_valid || (self.collection_index.is_some() && !input_preparation) || !output_valid
            || !exit_valid {
            return Err(EvidenceError::InvalidFailureDetail);
        }
        Ok(())
    }
}

/// Whether `byte` is an ASCII letter or digit.
fn is_ascii_alphanumeric(byte: u8) -> (alphanumeric: bool)
    ensures
        alphanumeric == ascii_alphanumeric(byte),
{
    ('a' as u8 <= byte && byte <= 'z' as u8) || ('A' as u8 <= byte && byte <= 'Z' as u8) || (
    '0' as u8 <= byte && byte <= '9' as u8)
}

/// Whether `bytes` identify a node.
fn is_node_identifier_bytes(bytes: &[u8]) -> (valid: bool)
    ensures
        valid == node_identifier(bytes@),
{
    if bytes.len() == 0 || bytes.len() > 64 {
        return false;
    }
    let first: u8 = bytes[0];
    if !(('a' as u8 <= first && first <= 'z' as u8) || ('A' as u8 <= first && first <= 'Z' as u8)) {
        return false;
    }
    let mut index: usize = 1;
    while index < bytes.len()
        invariant
            1 <= index <= bytes@.len(),
            forall|i: int|
                1 <= i < index ==> (ascii_alphanumeric(#[trigger] bytes@[i]) || bytes@[i]
                    == '_' as u8 || bytes@[i] == '-' as u8),
        decreases bytes@.len() - index,
    {
        let byte: u8 = bytes[index];
        if !is_ascii_alphanumeric(byte) && byte != '_' as u8 && byte != '-' as u8 {
            return false;
        }
        index = index + 1;
    }
    true
}

/// Whether `bytes` identify a value.
fn is_value_identifier_bytes(bytes: &[u8]) -> (valid: bool)
    ensures
        valid == value_identifier(bytes@),
{
    if bytes.len() == 0 || bytes.len() > 64 || bytes[0] < 'a' as u8 || bytes[0] > 'z' as u8 {
        return false;
    }
    let mut index: usize = 1;
    while index < bytes.len()
        invariant
            1 <= index <= bytes@.len(),
            forall|i: int| 1 <= i < index ==> ascii_alphanumeric(#[trigger] bytes@[i]),
        decreases bytes@.len() - index,
    {
        if !is_ascii_alphanumeric(bytes[index]) {
            return false;
        }
        index = index + 1;
    }
    true
}

/// Whether `value` identifies a node.
pub fn is_workflow_node_identifier(value: &str) -> (valid: bool)
    ensures
        valid == node_identifier(value.spec_bytes()),
{
    is_node_identifier_bytes(value.as_bytes())
}

/// Whether `value` identifies a value.
pub fn is_workflow_value_identifier(value: &str) -> (valid: bool)
    ensures
        valid == value_identifier(value.spec_bytes()),
{
    is_value_identifier_bytes(value.as_bytes())
}

/// The parts of an output reference are where its first `.` behind the prefix
/// parts them.
proof fn lemma_output_reference_parts(value: Seq<u8>, prefix: int, point: int)
    requires
        prefix == "outputs.".spec_bytes().len(),
        prefix <= point < value.len(),
        value[point] == '.' as u8,
        forall|i: int| prefix <= i < point ==> value[i] != '.' as u8,
    ensures
        output_reference(value) <==> value.take(prefix) == "outputs.".spec_bytes()
            && node_identifier(value.subrange(prefix, point)) && value_identifier(
            value.skip(point + 1),
        ),
{
    let start = "outputs.".spec_bytes();
    if output_reference(value) {
        let (node, output) = choose|node: Seq<u8>, output: Seq<u8>|
            node_identifier(node) && value_identifier(output) && value
                == #[trigger] output_reference_text(node, output);
        let end = prefix + node.len();
        assert(value[end] == '.' as u8);
        assert forall|i: int| prefix <= i < end implies value[i] != '.' as u8 by {
            assert(value[i] == node[i - prefix]);
            if i > prefix {
                assert(ascii_alphanumeric(node[i - prefix]) || node[i - prefix] == '_' as u8
                    || node[i - prefix] == '-' as u8);
            }
        }
        assert(end == point);
        assert(value.take(prefix) =~= start);
        assert(value.subrange(prefix, point) =~= node);
        assert(value.skip(point + 1) =~= output);
    }
    if value.take(prefix) == start && node_identifier(value.subrange(prefix, point))
        && value_identifier(value.skip(point + 1)) {
        let node = value.subrange(prefix, point);
        let output = value.skip(point + 1);
        assert(value =~= output_reference_text(node, output)) by {
            assert(value =~= value.take(prefix) + node + seq![value[point]] + output);
        }
    }
}

/// Whether `value` refers to an output of a node.
pub fn is_output_reference(value: &str) -> (valid: bool)
    ensures
        valid == output_reference(value.spec_bytes()),
{
    let bytes: &[u8] = value.as_bytes();
    let prefix: &[u8] = "outputs.".as_bytes();
    let start: usize = prefix.len();
    if bytes.len() < start {
        return false;
    }
    let mut point: usize = start;
    while point < bytes.len() && bytes[point] != '.' as u8
        invariant
            start <= point <= bytes@.len(),
            forall|i: int| start <= i < point ==> bytes@[i] != '.' as u8,
        ensures
            start <= point <= bytes@.len(),
            forall|i: int| start <= i < point ==> bytes@[i] != '.' as u8,
            point < bytes@.len() ==> bytes@[point as int] == '.' as u8,
        decreases bytes@.len() - point,
    {
        point = point + 1;
    }
    if point == bytes.len() {
        proof {
            if output_reference(bytes@) {
                let (node, output) = choose|node: Seq<u8>, output: Seq<u8>|
                    node_identifier(node) && value_identifier(output) && bytes@
                        == #[trigger] output_reference_text(node, output);
                assert(bytes@[start + node.len()] == '.' as u8);
            }
        }
        return false;
    }
    proof {
        lemma_output_reference_parts(bytes@, start as int, point as int);
        assert(bytes@.subrange(0, start as int) =~= bytes@.take(start as int));
        assert(bytes@.subrange(point + 1, bytes@.len() as int) =~= bytes@.skip(point + 1));
    }
    bytes_equal(&bytes[0..start], prefix) && is_node_identifier_bytes(&bytes[start..point])
        && is_value_identifier_bytes(&bytes[point + 1..bytes.len()])
}

/// What kind of requirement of a node was not satisfied.
#[derive(Clone, Copy, Debug, PartialEq, Eq, Structural)]
pub enum PrerequisiteKind {
    Control,
    Condition,
    Body,
}

impl PrerequisiteKind {
    /// The place of the kind among the kinds.
    pub open spec fn rank(self) -> int {
        match self {
            PrerequisiteKind::Control => 0,
            PrerequisiteKind::Condition => 1,
            PrerequisiteKind::Body => 2,
        }
    }

    fn position(self) -> (position: u8)
        ensures
            position == self.rank(),
    {
        match self {
            PrerequisiteKind::Control => 0,
            PrerequisiteKind::Condition => 1,
            PrerequisiteKind::Body => 2,
        }
    }
}

/// A prerequisite, by its kind and what it names.
pub struct PrerequisiteModel {
    pub kind: PrerequisiteKind,
    pub target: Seq<char>,
}

impl PrerequisiteModel {
    /// Whether `self` stands before `other`: by kind, then by the bytes of what
    /// is named.
    pub open spec fn before(self, other: PrerequisiteModel) -> bool {
        if self.kind != other.kind {
            self.kind.rank() < other.kind.rank()
        } else {
            bytes_before(encode_utf8(self.target), encode_utf8(other.target))
        }
    }

    /// Whether the prerequisite names something, and, unless it is a node, an
    /// output of a node.
    pub open spec fn valid(self) -> bool {
        &&& self.target.len() > 0
        &&& self.kind != PrerequisiteKind::Control ==> output_reference(encode_utf8(self.target))
    }
}

/// A requirement of a node that was not satisfied.
#[derive(Clone, Debug, PartialEq, Eq)]
pub enum Prerequisite {
    Control { node: String },
    Condition { reference: String },
    Body { reference: String },
}

impl View for Prerequisite {
    type V = PrerequisiteModel;

    open spec fn view(&self) -> PrerequisiteModel {
        match self {
            Prerequisite::Control { node } => PrerequisiteModel {
                kind: PrerequisiteKind::Control,
                target: node@,
            },
            Prerequisite::Condition { reference } => PrerequisiteModel {
                kind: PrerequisiteKind::Condition,
                target: reference@,
            },
            Prerequisite::Body { reference } => PrerequisiteModel {
                kind: PrerequisiteKind::Body,
                target: reference@,
            },
        }
    }
}

impl Prerequisite {
    /// Requires that a node ended well.
    pub fn control(node: &str) -> (created: Result<Prerequisite, EvidenceError>)
        ensures
            match created {
                Ok(prerequisite) => node@.len() > 0 && prerequisite@ == (PrerequisiteModel {
                    kind: PrerequisiteKind::Control,
                    target: node@,
                }),
                Err(error) => node@.len() == 0 && error == EvidenceError::InvalidPrerequisite,
            },
    {
        if node.is_empty() {
            return Err(EvidenceError::InvalidPrerequisite);
        }
        Ok(Prerequisite::Control { node: node.to_owned() })
    }

    /// Requires an output that a step's body reads.
    pub fn body(reference: &str) -> (created: Result<Prerequisite, EvidenceError>)
        ensures
            match created {
                Ok(prerequisite) => output_reference(reference.spec_bytes()) && prerequisite@ == (
                PrerequisiteModel { kind: PrerequisiteKind::Body, target: reference@ }),
                Err(error) => !output_reference(reference.spec_bytes()) && error
                    == EvidenceError::InvalidPrerequisite,
            },
    {
        if !is_output_reference(reference) {
            return Err(EvidenceError::InvalidPrerequisite);
        }
        Ok(Prerequisite::Body { reference: reference.to_owned() })
    }

    /// What kind of requirement it is.
    pub fn kind(&self) -> (kind: PrerequisiteKind)
        ensures
            kind == self@.kind,
    {
        match self {
            Prerequisite::Control { .. } => PrerequisiteKind::Control,
            Prerequisite::Condition { .. } => PrerequisiteKind::Condition,
            Prerequisite::Body { .. } => PrerequisiteKind::Body,
        }
    }

    /// What it names.
    pub fn target(&self) -> (target: &str)
        ensures
            target@ == self@.target,
    {
        match self {
            Prerequisite::Control { node } => node.as_str(),
            Prerequisite::Condition { reference } => reference.as_str(),
            Prerequisite::Body { reference } => reference.as_str(),
        }
    }

    /// Whether it stands before `other`.
    pub fn stands_before(&self, other: &Prerequisite) -> (before: bool)
        ensures
            before == self@.before(other@),
    {
        let own: u8 = self.kind().position();
        let others: u8 = other.kind().position();
        if own != others {
            own < others
        } else {
            stands_before(self.target().as_bytes(), other.target().as_bytes())
        }
    }

    /// Whether it names something that may be named.
    pub fn is_valid(&self) -> (valid: bool)
        ensures
            valid == self@.valid(),
    {
        match self {
            Prerequisite::Control { node } => !node.as_str().is_empty(),
            Prerequisite::Condition { reference } => !reference.as_str().is_empty()
                && is_output_reference(reference.as_str()),
            Prerequisite::Body { reference } => !reference.as_str().is_empty()
                && is_output_reference(reference.as_str()),
        }
    }
}

/// The order of prerequisites is a strict total order.
pub proof fn law_prerequisite_order_is_total(
    a: PrerequisiteModel,
    b: PrerequisiteModel,
    c: PrerequisiteModel,
)
    ensures
        !a.before(a),
        a.before(b) || a == b || b.before(a),
        !(a.before(b) && b.before(a)),
        a.before(b) && b.before(c) ==> a.before(c),
{
    law_byte_order_is_total(
        encode_utf8(a.target),
        encode_utf8(b.target),
        encode_utf8(c.target),
    );
    crate::text::lemma_utf8_injective(a.target, b.target);
}

/// The models of prerequisites.
pub open spec fn prerequisite_models(prerequisites: Seq<Prerequisite>) -> Seq<PrerequisiteModel> {
    prerequisites.map_values(|prerequisite: Prerequisite| prerequisite@)
}

/// Whether prerequisites stand in order, none of them twice.
pub open spec fn strictly_ordered(prerequisites: Seq<PrerequisiteModel>) -> bool {
    forall|i: int, j: int|
        0 <= i < j < prerequisites.len() ==> (#[trigger] prerequisites[i]).before(
            #[trigger] prerequisites[j],
        )
}

/// Whether two lists hold the same prerequisites.
pub open spec fn same_prerequisites(
    left: Seq<PrerequisiteModel>,
    right: Seq<PrerequisiteModel>,
) -> bool {
    forall|prerequisite: PrerequisiteModel| #[trigger]
        left.contains(prerequisite) <==> right.contains(prerequisite)
}

proof fn lemma_ordered_no_duplicates(prerequisites: Seq<PrerequisiteModel>)
    requires
        strictly_ordered(prerequisites),
    ensures
        prerequisites.no_duplicates(),
        prerequisites.to_set().len() == prerequisites.len(),
{
    assert forall|i: int, j: int|
        0 <= i < prerequisites.len() && 0 <= j < prerequisites.len() && i
            != j implies prerequisites[i] != prerequisites[j] by {
        law_prerequisite_order_is_total(prerequisites[i], prerequisites[j], prerequisites[i]);
        if i < j {
            assert(prerequisites[i].before(prerequisites[j]));
        } else {
            assert(prerequisites[j].before(prerequisites[i]));
        }
    }
    prerequisites.unique_seq_to_set();
}

/// Two ordered lists that hold the same prerequisites are the same list.
pub proof fn law_ordered_prerequisites_are_unique(
    left: Seq<PrerequisiteModel>,
    right: Seq<PrerequisiteModel>,
)
    requires
        strictly_ordered(left),
        strictly_ordered(right),
        same_prerequisites(left, right),
    ensures
        left == right,
    decreases left.len(),
{
    if left.len() == 0 {
        if right.len() > 0 {
            assert(right.contains(right[0]));
            assert(left.contains(right[0]));
        }
        assert(left =~= right);
    } else {
        assert(left.contains(left.last()));
        assert(right.contains(left.last()));
        assert(right.contains(right.last()));
        assert(left.contains(right.last()));
        let i = choose|i: int| 0 <= i < left.len() && left[i] == right.last();
        let j = choose|j: int| 0 <= j < right.len() && right[j] == left.last();
        law_prerequisite_order_is_total(left.last(), right.last(), left.last());
        assert(left.last() == right.last()) by {
            if i < left.len() - 1 {
                assert(left[i].before(left[left.len() - 1]));
            }
            if j < right.len() - 1 {
                assert(right[j].before(right[right.len() - 1]));
            }
        }
        let shorter_left = left.drop_last();
        let shorter_right = right.drop_last();
        assert forall|prerequisite: PrerequisiteModel| #[trigger]
            shorter_left.contains(prerequisite) <==> shorter_right.contains(prerequisite) by {
            lemma_without_last(left, prerequisite);
            lemma_without_last(right, prerequisite);
        }
        law_ordered_prerequisites_are_unique(shorter_left, shorter_right);
        assert(left =~= shorter_left.push(left.last()));
        assert(right =~= shorter_right.push(right.last()));
    }
}

proof fn lemma_without_last(prerequisites: Seq<PrerequisiteModel>, prerequisite: PrerequisiteModel)
    requires
        strictly_ordered(prerequisites),
        prerequisites.len() > 0,
    ensures
        prerequisites.drop_last().contains(prerequisite) <==> prerequisites.contains(prerequisite)
            && prerequisite != prerequisites.last(),
{
    let shorter = prerequisites.drop_last();
    if shorter.contains(prerequisite) {
        let i = choose|i: int| 0 <= i < shorter.len() && shorter[i] == prerequisite;
        assert(prerequisites[i] == prerequisite);
        assert(prerequisites[i].before(prerequisites[prerequisites.len() - 1]));
        law_prerequisite_order_is_total(prerequisite, prerequisite, prerequisite);
    }
    if prerequisites.contains(prerequisite) && prerequisite != prerequisites.last() {
        let i = choose|i: int| 0 <= i < prerequisites.len() && prerequisites[i] == prerequisite;
        assert(shorter[i] == prerequisite);
    }
}

/// Why a node was blocked.
#[derive(Clone, Copy, Debug, PartialEq, Eq, Structural)]
pub enum BlockedCode {
    PrerequisitesUnsatisfied,
}

/// The evidence of a blocked node: the requirements that were not satisfied, in
/// order.
#[derive(Clone, Debug, PartialEq, Eq)]
pub struct BlockedDetail {
    pub code: BlockedCode,
    pub prerequisites: Vec<Prerequisite>,
}

/// Whether evidence of a blocked node can list these prerequisites.
pub open spec fn blocked_error(prerequisites: Seq<PrerequisiteModel>) -> Option<EvidenceError> {
    let distinct = prerequisites.to_set().len();
    if distinct == 0 || distinct > MAXIMUM_PREREQUISITES {
        Some(EvidenceError::InvalidPrerequisiteCount)
    } else if exists|i: int|
        0 <= i < prerequisites.len() && !(#[trigger] prerequisites[i]).valid() {
        Some(EvidenceError::InvalidPrerequisite)
    } else {
        None
    }
}

/// Puts a prerequisite into its place, unless it is there already.
fn insert_prerequisite(prerequisites: &mut Vec<Prerequisite>, prerequisite: Prerequisite)
    requires
        strictly_ordered(prerequisite_models(old(prerequisites)@)),
    ensures
        strictly_ordered(prerequisite_models(final(prerequisites)@)),
        forall|model: PrerequisiteModel| #[trigger]
            prerequisite_models(final(prerequisites)@).contains(model) <==> model == prerequisite@
                || prerequisite_models(old(prerequisites)@).contains(model),
{
    let ghost before = prerequisite_models(prerequisites@);
    let mut index: usize = 0;
    while index < prerequisites.len() && prerequisites[index].stands_before(&prerequisite)
        invariant
            index <= prerequisites@.len(),
            before == prerequisite_models(prerequisites@),
            strictly_ordered(before),
            forall|i: int| 0 <= i < index ==> (#[trigger] before[i]).before(prerequisite@),
        ensures
            index <= prerequisites@.len(),
            forall|i: int| 0 <= i < index ==> (#[trigger] before[i]).before(prerequisite@),
            index < prerequisites@.len() ==> !before[index as int].before(prerequisite@),
        decreases prerequisites@.len() - index,
    {
        assert(before[index as int] == prerequisites@[index as int]@);
        index = index + 1;
    }
    if index < prerequisites.len() && !prerequisite.stands_before(&prerequisites[index]) {
        proof {
            assert(before[index as int] == prerequisites@[index as int]@);
            law_prerequisite_order_is_total(before[index as int], prerequisite@, prerequisite@);
            assert(before.contains(prerequisite@));
        }
        return;
    }
    let ghost listed = prerequisites@;
    prerequisites.insert(index, prerequisite);
    proof {
        let after = prerequisite_models(prerequisites@);
        assert(after =~= before.insert(index as int, prerequisite@));
        assert forall|i: int, j: int| 0 <= i < j < after.len() implies (#[trigger] after[i]).before(
            #[trigger] after[j],
        ) by {
            if i < index && j > index {
                assert(before[i].before(before[j - 1]));
            } else if i == index {
                assert(before[index as int] == listed[index as int]@);
                assert(prerequisite@.before(before[index as int]));
                if j - 1 > index {
                    assert(before[index as int].before(before[j - 1]));
                }
                law_prerequisite_order_is_total(
                    prerequisite@,
                    before[index as int],
                    before[j - 1],
                );
            } else if i > index {
                assert(before[i - 1].before(before[j - 1]));
            } else if j < index {
                assert(before[i].before(before[j]));
            }
        }
        assert forall|model: PrerequisiteModel| #[trigger] after.contains(model) <==> model
            == prerequisite@ || before.contains(model) by {
            if after.contains(model) {
                let i = choose|i: int| 0 <= i < after.len() && after[i] == model;
                if i < index {
                    assert(before[i] == model);
                } else if i > index {
                    assert(before[i - 1] == model);
                }
            }
            if before.contains(model) {
                let i = choose|i: int| 0 <= i < before.len() && before[i] == model;
                if i < index {
                    assert(after[i] == model);
                } else {
                    assert(after[i + 1] == model);
                }
            }
            assert(after[index as int] == prerequisite@);
        }
    }
}

impl BlockedDetail {
    /// The evidence that lists `prerequisites` in order, each of them once.
    pub fn new(prerequisites: Vec<Prerequisite>) -> (created: Result<BlockedDetail, EvidenceError>)
        ensures
            match created {
                Ok(detail) => blocked_error(prerequisite_models(prerequisites@)) is None
                    && strictly_ordered(prerequisite_models(detail.prerequisites@))
                    && same_prerequisites(
                    prerequisite_models(detail.prerequisites@),
                    prerequisite_models(prerequisites@),
                ),
                Err(error) => blocked_error(prerequisite_models(prerequisites@)) == Some(error),
            },
    {
        let ghost given = prerequisite_models(prerequisites@);
        let mut ordered: Vec<Prerequisite> = Vec::new();
        let mut remaining: Vec<Prerequisite> = prerequisites;
        assert(given.skip(remaining@.len() as int) =~= Seq::empty());
        while remaining.len() > 0
            invariant
                remaining@.len() <= given.len(),
                prerequisite_models(remaining@) == given.take(remaining@.len() as int),
                strictly_ordered(prerequisite_models(ordered@)),
                forall|model: PrerequisiteModel| #[trigger]
                    prerequisite_models(ordered@).contains(model) <==> given.skip(
                        remaining@.len() as int,
                    ).contains(model),
            decreases remaining@.len(),
        {
            let ghost before = remaining@;
            let ghost collected = prerequisite_models(ordered@);
            match remaining.pop() {
                Some(prerequisite) => {
                    let ghost model = prerequisite@;
                    insert_prerequisite(&mut ordered, prerequisite);
                    proof {
                        let position = remaining@.len() as int;
                        assert(prerequisite_models(before)[position] == model);
                        assert(given.take(position + 1)[position] == given[position]);
                        assert(given[position] == model);
                        assert(prerequisite_models(remaining@) =~= given.take(position)) by {
                            assert(prerequisite_models(before).take(position)
                                =~= prerequisite_models(remaining@));
                            assert(given.take(position + 1).take(position) =~= given.take(
                                position,
                            ));
                        }
                        let rest = given.skip(position);
                        let later = given.skip(position + 1);
                        assert(rest =~= seq![model] + later);
                        assert forall|other: PrerequisiteModel| #[trigger]
                            prerequisite_models(ordered@).contains(other) <==> rest.contains(
                                other,
                            ) by {
                            assert(collected.contains(other) <==> later.contains(other));
                            if rest.contains(other) {
                                let i = choose|i: int| 0 <= i < rest.len() && rest[i] == other;
                                if i > 0 {
                                    assert(later[i - 1] == other);
                                }
                            }
                            if later.contains(other) {
                                let i = choose|i: int| 0 <= i < later.len() && later[i] == other;
                                assert(rest[i + 1] == other);
                            }
                            assert(rest[0] == model);
                        }
                    }
                },
                None => {},
            }
        }
        let ghost models = prerequisite_models(ordered@);
        proof {
            assert(given.skip(0) =~= given);
            lemma_ordered_no_duplicates(models);
            assert(models.to_set() =~= given.to_set()) by {
                assert forall|model: PrerequisiteModel|
                    models.to_set().contains(model) <==> given.to_set().contains(model) by {
                    assert(models.contains(model) <==> given.contains(model));
                }
            }
        }
        if ordered.len() == 0 || ordered.len() > MAXIMUM_PREREQUISITES {
            return Err(EvidenceError::InvalidPrerequisiteCount);
        }
        let mut index: usize = 0;
        while index < ordered.len()
            invariant
                index <= ordered@.len(),
                models == prerequisite_models(ordered@),
                given == prerequisite_models(prerequisites@),
                same_prerequisites(models, given),
                given.to_set().len() == ordered@.len(),
                0 < ordered@.len() <= MAXIMUM_PREREQUISITES,
                forall|i: int| 0 <= i < index ==> (#[trigger] models[i]).valid(),
            decreases ordered@.len() - index,
        {
            assert(models[index as int] == ordered@[index as int]@);
            if !ordered[index].is_valid() {
                proof {
                    assert(models.contains(models[index as int]));
                    assert(given.contains(models[index as int]));
                    let i = choose|i: int|
                        0 <= i < given.len() && given[i] == models[index as int];
                    assert(!given[i].valid());
                }
                return Err(EvidenceError::InvalidPrerequisite);
            }
            index = index + 1;
        }
        proof {
            assert forall|i: int| 0 <= i < given.len() implies (#[trigger] given[i]).valid() by {
                assert(given.contains(given[i]));
                assert(models.contains(given[i]));
                let j = choose|j: int| 0 <= j < models.len() && models[j] == given[i];
                assert(models[j].valid());
            }
        }
        Ok(BlockedDetail { code: BlockedCode::PrerequisitesUnsatisfied, prerequisites: ordered })
    }

    /// The evidence that was kept with these prerequisites, if it can list them and
    /// they stand in order, none of them twice.
    pub fn from_listed(prerequisites: Vec<Prerequisite>) -> (read: Result<
        BlockedDetail,
        EvidenceError,
    >)
        ensures
            ({
                let models = prerequisite_models(prerequisites@);
                match read {
                    Ok(detail) => blocked_error(models) is None && strictly_ordered(models)
                        && prerequisite_models(detail.prerequisites@) == models,
                    Err(error) => match blocked_error(models) {
                        Some(refusal) => error == refusal,
                        None => !strictly_ordered(models) && error
                            == EvidenceError::InvalidPrerequisite,
                    },
                }
            }),
    {
        let ghost models = prerequisite_models(prerequisites@);
        let ordered: bool = are_strictly_ordered(&prerequisites);
        let detail: BlockedDetail = BlockedDetail::new(prerequisites)?;
        if !ordered {
            return Err(EvidenceError::InvalidPrerequisite);
        }
        proof {
            law_ordered_prerequisites_are_unique(
                prerequisite_models(detail.prerequisites@),
                models,
            );
        }
        Ok(detail)
    }
}

/// Whether prerequisites stand in order, none of them twice.
fn are_strictly_ordered(prerequisites: &Vec<Prerequisite>) -> (ordered: bool)
    ensures
        ordered == strictly_ordered(prerequisite_models(prerequisites@)),
{
    let ghost models = prerequisite_models(prerequisites@);
    let mut index: usize = 1;
    while index < prerequisites.len()
        invariant
            1 <= index,
            index <= prerequisites@.len() || prerequisites@.len() == 0,
            models == prerequisite_models(prerequisites@),
            forall|i: int, j: int|
                0 <= i < j < index && j < models.len() ==> (#[trigger] models[i]).before(
                    #[trigger] models[j],
                ),
        decreases prerequisites@.len() - index,
    {
        let ghost last = models[index - 1];
        let ghost next = models[index as int];
        if !prerequisites[index - 1].stands_before(&prerequisites[index]) {
            assert(!last.before(next));
            return false;
        }
        assert forall|i: int| 0 <= i < index implies (#[trigger] models[i]).before(next) by {
            if i < index - 1 {
                law_prerequisite_order_is_total(models[i], last, next);
            }
        }
        index = index + 1;
    }
    true
}

/// Why a node did not run.
#[derive(Clone, Copy, Debug, PartialEq, Eq, Structural)]
pub enum NonExecutionCode {
    FailureStop,
    FinalizerTriggerNotSelected,
}

/// The evidence of a node that did not run.
#[derive(Clone, Copy, Debug, PartialEq, Eq, Structural)]
pub struct NonExecutionDetail {
    pub code: NonExecutionCode,
}

impl NonExecutionDetail {
    /// Another node failed before the node was due.
    pub fn failure_stop() -> (detail: NonExecutionDetail)
        ensures
            detail.code == NonExecutionCode::FailureStop,
    {
        NonExecutionDetail { code: NonExecutionCode::FailureStop }
    }

    /// The run did not end in a way that selects the finalizer.
    pub fn finalizer_trigger_not_selected() -> (detail: NonExecutionDetail)
        ensures
            detail.code == NonExecutionCode::FinalizerTriggerNotSelected,
    {
        NonExecutionDetail { code: NonExecutionCode::FinalizerTriggerNotSelected }
    }

    /// The evidence with that code, if it can be one of a node of that role.
    pub fn for_role(role: WorkflowNodeRole, code: NonExecutionCode) -> (created: Result<
        NonExecutionDetail,
        EvidenceError,
    >)
        ensures
            created == (if (role == WorkflowNodeRole::Step) == (code
                == NonExecutionCode::FailureStop) {
                Ok(NonExecutionDetail { code })
            } else {
                Err(EvidenceError::NodeRoleMismatch)
            }),
    {
        match (role, code) {
            (WorkflowNodeRole::Step, NonExecutionCode::FailureStop) => Ok(
                NonExecutionDetail { code },
            ),
            (WorkflowNodeRole::Finalizer, NonExecutionCode::FinalizerTriggerNotSelected) => Ok(
                NonExecutionDetail { code },
            ),
            _ => Err(EvidenceError::NodeRoleMismatch),
        }
    }
}

/// Why a run was cancelled.
#[derive(Clone, Copy, Debug, PartialEq, Eq, Structural)]
pub enum CancellationReason {
    UserRequest,
    RunnerShutdown,
    TerminationRequest,
    CallerOutputFailure,
}

/// The evidence of a cancelled node.
#[derive(Clone, Copy, Debug, PartialEq, Eq, Structural)]
pub struct CancellationDetail {
    pub code: CancellationReason,
}

impl CancellationDetail {
    /// The evidence that a node was cancelled for that reason.
    pub fn new(code: CancellationReason) -> (detail: CancellationDetail)
        ensures
            detail.code == code,
    {
        CancellationDetail { code }
    }
}

/// The evidence of a node that did not succeed.
#[derive(Debug, PartialEq, Eq)]
pub enum NodeDetail {
    Failed(FailureDetail),
    Blocked(BlockedDetail),
    NotRun(NonExecutionDetail),
    Cancellation(CancellationDetail),
}

/// The evidence of the node that first kept a run from succeeding.
#[derive(Clone, Debug, PartialEq, Eq)]
pub enum PrimaryIssueDetail {
    Failed(FailureDetail),
    Blocked(BlockedDetail),
}

/// How the node that first kept a run from succeeding ended.
#[derive(Clone, Copy, Debug, PartialEq, Eq, Structural)]
pub enum PrimaryIssueState {
    Failed,
    Blocked,
}

/// The node that first kept a run from succeeding.
#[derive(Clone, Debug, PartialEq, Eq)]
pub struct PrimaryIssue {
    pub node: WorkflowNode,
    pub state: PrimaryIssueState,
    pub detail: PrimaryIssueDetail,
}

impl PrimaryIssue {
    /// Whether the state is the one that the detail is evidence of.
    pub open spec fn consistent(&self) -> bool {
        match self.state {
            PrimaryIssueState::Failed => self.detail is Failed,
            PrimaryIssueState::Blocked => self.detail is Blocked,
        }
    }

    /// A node failed.
    pub fn failed(node: WorkflowNode, detail: FailureDetail) -> (issue: PrimaryIssue)
        ensures
            issue.consistent(),
            issue.node == node,
            issue.state == PrimaryIssueState::Failed,
            issue.detail == PrimaryIssueDetail::Failed(detail),
    {
        PrimaryIssue {
            node,
            state: PrimaryIssueState::Failed,
            detail: PrimaryIssueDetail::Failed(detail),
        }
    }

    /// A node was blocked.
    pub fn blocked(node: WorkflowNode, detail: BlockedDetail) -> (issue: PrimaryIssue)
        ensures
            issue.consistent(),
            issue.node == node,
            issue.state == PrimaryIssueState::Blocked,
            issue.detail == PrimaryIssueDetail::Blocked(detail),
    {
        PrimaryIssue {
            node,
            state: PrimaryIssueState::Blocked,
            detail: PrimaryIssueDetail::Blocked(detail),
        }
    }
}

/// The code of an input that could not be prepared.
pub open spec fn input_preparation_code(source: InputPreparationFailureKind) -> FailureCode {
    match source {
        InputPreparationFailureKind::InvalidInputName => FailureCode::InputInvalidName,
        InputPreparationFailureKind::ValueCountLimitExceeded => FailureCode::InputValueCountLimit,
        InputPreparationFailureKind::ValueSizeLimitExceeded => FailureCode::InputValueSizeLimit,
        InputPreparationFailureKind::TotalSizeLimitExceeded => FailureCode::InputTotalSizeLimit,
        InputPreparationFailureKind::CollectionOrdinalLimitExceeded => {
            FailureCode::InputCollectionOrdinalLimit
        },
        InputPreparationFailureKind::ValueTypeMismatch => FailureCode::InputTypeMismatch,
        InputPreparationFailureKind::SourceUnavailable => FailureCode::InputSourceUnavailable,
        InputPreparationFailureKind::StagingUnavailable => FailureCode::InputStagingUnavailable,
        InputPreparationFailureKind::LiveLimitExceeded => FailureCode::InputLiveLimit,
    }
}

/// The code of an input that could not be prepared.
fn code_of_input_preparation(source: &InputPreparationFailureKind) -> (code: FailureCode)
    ensures
        code == input_preparation_code(*source),
{
    match source {
        InputPreparationFailureKind::InvalidInputName => FailureCode::InputInvalidName,
        InputPreparationFailureKind::ValueCountLimitExceeded => FailureCode::InputValueCountLimit,
        InputPreparationFailureKind::ValueSizeLimitExceeded => FailureCode::InputValueSizeLimit,
        InputPreparationFailureKind::TotalSizeLimitExceeded => FailureCode::InputTotalSizeLimit,
        InputPreparationFailureKind::CollectionOrdinalLimitExceeded => {
            FailureCode::InputCollectionOrdinalLimit
        },
        InputPreparationFailureKind::ValueTypeMismatch => FailureCode::InputTypeMismatch,
        InputPreparationFailureKind::SourceUnavailable => FailureCode::InputSourceUnavailable,
        InputPreparationFailureKind::StagingUnavailable => FailureCode::InputStagingUnavailable,
        InputPreparationFailureKind::LiveLimitExceeded => FailureCode::InputLiveLimit,
    }
}

/// The code of a working directory that could not be used.
pub open spec fn working_directory_code(source: WorkingDirectoryFailure) -> FailureCode {
    match source {
        WorkingDirectoryFailure::ExecutionRootRebound => FailureCode::ExecutionRootRebound,
        WorkingDirectoryFailure::Unavailable => FailureCode::WorkingDirectoryUnavailable,
        WorkingDirectoryFailure::EscapesExecutionRoot => FailureCode::WorkingDirectoryEscape,
        WorkingDirectoryFailure::NotDirectory => FailureCode::WorkingDirectoryNotDirectory,
    }
}

/// The code of a working directory that could not be used.
fn code_of_working_directory(source: &WorkingDirectoryFailure) -> (code: FailureCode)
    ensures
        code == working_directory_code(*source),
{
    match source {
        WorkingDirectoryFailure::ExecutionRootRebound => FailureCode::ExecutionRootRebound,
        WorkingDirectoryFailure::Unavailable => FailureCode::WorkingDirectoryUnavailable,
        WorkingDirectoryFailure::EscapesExecutionRoot => FailureCode::WorkingDirectoryEscape,
        WorkingDirectoryFailure::NotDirectory => FailureCode::WorkingDirectoryNotDirectory,
    }
}

/// The code of an agent's input that could not be prepared.
pub open spec fn agent_input_code(source: AgentInputStartFailure) -> FailureCode {
    match source {
        AgentInputStartFailure::StepUnavailable => FailureCode::AgentStepUnavailable,
        AgentInputStartFailure::AgentAdmissionUnavailable => FailureCode::AgentAdmissionUnavailable,
        AgentInputStartFailure::InputsUnavailable => FailureCode::AgentInputsUnavailable,
        AgentInputStartFailure::MissingUpstreamValue => FailureCode::AgentInputMissingUpstream,
        AgentInputStartFailure::ValueTypeMismatch => FailureCode::AgentInputTypeMismatch,
        AgentInputStartFailure::RetainedSourceUnavailable => FailureCode::AgentSourceUnavailable,
        AgentInputStartFailure::InvalidRetainedText => FailureCode::AgentSourceTextInvalid,
        AgentInputStartFailure::ResultSchemaUnavailable => {
            FailureCode::AgentResultSchemaUnavailable
        },
        AgentInputStartFailure::InvalidValueMode => FailureCode::AgentValueModeInvalid,
        AgentInputStartFailure::AttachmentCountLimitExceeded => {
            FailureCode::AgentAttachmentCountLimit
        },
        AgentInputStartFailure::AttachmentBytesLimitExceeded => {
            FailureCode::AgentAttachmentBytesLimit
        },
        AgentInputStartFailure::ArtifactStagingMismatch => FailureCode::ArtifactStagingMismatch,
        AgentInputStartFailure::AgentStagingMismatch => FailureCode::AgentStagingMismatch,
        AgentInputStartFailure::StagingUnavailable => FailureCode::AgentInputStagingUnavailable,
        AgentInputStartFailure::WorkingDirectory(source) => working_directory_code(source),
    }
}

/// The evidence of an agent's input that could not be prepared.
pub fn agent_input_failure_detail(source: &AgentInputStartFailure) -> (detail: FailureDetail)
    ensures
        detail@ == FailureModel::of_code(FailurePhase::Start, agent_input_code(*source)),
{
    code(
        FailurePhase::Start,
        match source {
            AgentInputStartFailure::StepUnavailable => FailureCode::AgentStepUnavailable,
            AgentInputStartFailure::AgentAdmissionUnavailable => {
                FailureCode::AgentAdmissionUnavailable
            },
            AgentInputStartFailure::InputsUnavailable => FailureCode::AgentInputsUnavailable,
            AgentInputStartFailure::MissingUpstreamValue => FailureCode::AgentInputMissingUpstream,
            AgentInputStartFailure::ValueTypeMismatch => FailureCode::AgentInputTypeMismatch,
            AgentInputStartFailure::RetainedSourceUnavailable => {
                FailureCode::AgentSourceUnavailable
            },
            AgentInputStartFailure::InvalidRetainedText => FailureCode::AgentSourceTextInvalid,
            AgentInputStartFailure::ResultSchemaUnavailable => {
                FailureCode::AgentResultSchemaUnavailable
            },
            AgentInputStartFailure::InvalidValueMode => FailureCode::AgentValueModeInvalid,
            AgentInputStartFailure::AttachmentCountLimitExceeded => {
                FailureCode::AgentAttachmentCountLimit
            },
            AgentInputStartFailure::AttachmentBytesLimitExceeded => {
                FailureCode::AgentAttachmentBytesLimit
            },
            AgentInputStartFailure::ArtifactStagingMismatch => FailureCode::ArtifactStagingMismatch,
            AgentInputStartFailure::AgentStagingMismatch => FailureCode::AgentStagingMismatch,
            AgentInputStartFailure::StagingUnavailable => FailureCode::AgentInputStagingUnavailable,
            AgentInputStartFailure::WorkingDirectory(source) => code_of_working_directory(source),
        },
    )
}

/// The evidence of a working directory that could not be used.
pub fn working_directory_detail(source: &WorkingDirectoryFailure) -> (detail: FailureDetail)
    ensures
        detail@ == FailureModel::of_code(FailurePhase::Start, working_directory_code(*source)),
{
    code(FailurePhase::Start, code_of_working_directory(source))
}

/// The code of a failed agent.
pub open spec fn agent_code(source: AgentFailureCause) -> FailureCode {
    match source {
        AgentFailureCause::HarnessStartFailed => FailureCode::HarnessStartFailed,
        AgentFailureCause::HarnessSetupFailed { .. } => FailureCode::HarnessStartFailed,
        AgentFailureCause::HarnessInputTooLarge { .. } => FailureCode::HarnessInputTooLarge,
        AgentFailureCause::HarnessFailed { .. } => FailureCode::HarnessFailed,
        AgentFailureCause::HarnessProtocolFailed => FailureCode::HarnessProtocolFailed,
        AgentFailureCause::MissingResponse => FailureCode::MissingResponse,
        AgentFailureCause::MissingResult => FailureCode::MissingResult,
        AgentFailureCause::ResultValidationLimitExceeded => {
            FailureCode::ResultValidationLimitExceeded
        },
        AgentFailureCause::CapturedValueTooLarge => FailureCode::CapturedValueTooLarge,
        AgentFailureCause::ResultSettlementFailed => FailureCode::ResultSettlementFailed,
    }
}

/// The code of a failed agent.
fn code_of_agent(source: &AgentFailureCause) -> (code: FailureCode)
    ensures
        code == agent_code(*source),
{
    match source {
        AgentFailureCause::HarnessStartFailed => FailureCode::HarnessStartFailed,
        AgentFailureCause::HarnessSetupFailed { .. } => FailureCode::HarnessStartFailed,
        AgentFailureCause::HarnessInputTooLarge { .. } => FailureCode::HarnessInputTooLarge,
        AgentFailureCause::HarnessFailed { .. } => FailureCode::HarnessFailed,
        AgentFailureCause::HarnessProtocolFailed => FailureCode::HarnessProtocolFailed,
        AgentFailureCause::MissingResponse => FailureCode::MissingResponse,
        AgentFailureCause::MissingResult => FailureCode::MissingResult,
        AgentFailureCause::ResultValidationLimitExceeded => {
            FailureCode::ResultValidationLimitExceeded
        },
        AgentFailureCause::CapturedValueTooLarge => FailureCode::CapturedValueTooLarge,
        AgentFailureCause::ResultSettlementFailed => FailureCode::ResultSettlementFailed,
    }
}

/// The evidence of a failed agent.
pub fn agent_failure_detail(phase: FailurePhase, source: &AgentFailure) -> (detail: FailureDetail)
    ensures
        detail@ == FailureModel::of_code(phase, agent_code(source.cause)),
{
    code(phase, code_of_agent(&source.cause))
}

/// The code of a command that could not be prepared.
pub open spec fn command_preparation_code(source: CommandPreparationFailure) -> FailureCode {
    match source {
        CommandPreparationFailure::InvalidArgv => FailureCode::CommandArgvInvalid,
        CommandPreparationFailure::PathNotConfigured => FailureCode::CommandPathUnconfigured,
        CommandPreparationFailure::ExecutableNotFound => FailureCode::ExecutableNotFound,
        CommandPreparationFailure::ExecutableUnavailable => FailureCode::ExecutableUnavailable,
    }
}

/// The code of a command that could not be prepared.
fn code_of_command_preparation(source: &CommandPreparationFailure) -> (code: FailureCode)
    ensures
        code == command_preparation_code(*source),
{
    match source {
        CommandPreparationFailure::InvalidArgv => FailureCode::CommandArgvInvalid,
        CommandPreparationFailure::PathNotConfigured => FailureCode::CommandPathUnconfigured,
        CommandPreparationFailure::ExecutableNotFound => FailureCode::ExecutableNotFound,
        CommandPreparationFailure::ExecutableUnavailable => FailureCode::ExecutableUnavailable,
    }
}

/// The code of a command that could not be launched.
pub open spec fn command_launch_code(source: CommandLaunchFailure) -> FailureCode {
    match source {
        CommandLaunchFailure::NotFound => FailureCode::CommandLaunchNotFound,
        CommandLaunchFailure::PermissionDenied => FailureCode::CommandLaunchPermissionDenied,
        CommandLaunchFailure::InvalidInput => FailureCode::CommandLaunchInvalidInput,
        CommandLaunchFailure::Other => FailureCode::CommandLaunchFailed,
    }
}

/// The code of a command that could not be launched.
fn code_of_command_launch(source: &CommandLaunchFailure) -> (code: FailureCode)
    ensures
        code == command_launch_code(*source),
{
    match source {
        CommandLaunchFailure::NotFound => FailureCode::CommandLaunchNotFound,
        CommandLaunchFailure::PermissionDenied => FailureCode::CommandLaunchPermissionDenied,
        CommandLaunchFailure::InvalidInput => FailureCode::CommandLaunchInvalidInput,
        CommandLaunchFailure::Other => FailureCode::CommandLaunchFailed,
    }
}

/// The code of an output that could not be captured.
pub open spec fn capture_code(source: CaptureFailureKind) -> FailureCode {
    match source {
        CaptureFailureKind::AbsolutePath => FailureCode::OutputPathAbsolute,
        CaptureFailureKind::LexicalEscape => FailureCode::OutputPathEscape,
        CaptureFailureKind::EmptyPath => FailureCode::OutputPathEmpty,
        CaptureFailureKind::Missing => FailureCode::OutputMissing,
        CaptureFailureKind::SymbolicLink => FailureCode::OutputSymbolicLink,
        CaptureFailureKind::NotDirectory => FailureCode::OutputParentNotDirectory,
        CaptureFailureKind::NotRegularFile => FailureCode::OutputNotRegularFile,
        CaptureFailureKind::SourceUnavailable => FailureCode::OutputSourceUnavailable,
        CaptureFailureKind::InvalidTextEncoding => FailureCode::OutputInvalidUtf8,
        CaptureFailureKind::InvalidJson => FailureCode::OutputInvalidJson,
        CaptureFailureKind::DuplicateJsonMember => FailureCode::OutputDuplicateJsonMember,
        CaptureFailureKind::JsonSchemaMismatch => FailureCode::OutputJsonSchemaMismatch,
        CaptureFailureKind::FileCountLimitExceeded => FailureCode::CapturedFileCountLimit,
        CaptureFailureKind::FileSizeLimitExceeded => FailureCode::CapturedFileSizeLimit,
        CaptureFailureKind::TotalSizeLimitExceeded => FailureCode::CapturedTotalSizeLimit,
        CaptureFailureKind::GitCarrierCountLimitExceeded => {
            FailureCode::CapturedGitCarrierCountLimit
        },
        CaptureFailureKind::GitCarrierSizeLimitExceeded => FailureCode::CapturedGitCarrierSizeLimit,
        CaptureFailureKind::TotalGitCarrierSizeLimitExceeded => {
            FailureCode::CapturedTotalGitCarrierSizeLimit
        },
        CaptureFailureKind::CarrierProducerUnavailable => FailureCode::GitBundleGenerationFailed,
        CaptureFailureKind::StagingUnavailable => FailureCode::OutputStagingUnavailable,
    }
}

/// The code of an output that could not be captured.
fn code_of_capture(source: &CaptureFailureKind) -> (code: FailureCode)
    ensures
        code == capture_code(*source),
{
    match source {
        CaptureFailureKind::AbsolutePath => FailureCode::OutputPathAbsolute,
        CaptureFailureKind::LexicalEscape => FailureCode::OutputPathEscape,
        CaptureFailureKind::EmptyPath => FailureCode::OutputPathEmpty,
        CaptureFailureKind::Missing => FailureCode::OutputMissing,
        CaptureFailureKind::SymbolicLink => FailureCode::OutputSymbolicLink,
        CaptureFailureKind::NotDirectory => FailureCode::OutputParentNotDirectory,
        CaptureFailureKind::NotRegularFile => FailureCode::OutputNotRegularFile,
        CaptureFailureKind::SourceUnavailable => FailureCode::OutputSourceUnavailable,
        CaptureFailureKind::InvalidTextEncoding => FailureCode::OutputInvalidUtf8,
        CaptureFailureKind::InvalidJson => FailureCode::OutputInvalidJson,
        CaptureFailureKind::DuplicateJsonMember => FailureCode::OutputDuplicateJsonMember,
        CaptureFailureKind::JsonSchemaMismatch => FailureCode::OutputJsonSchemaMismatch,
        CaptureFailureKind::FileCountLimitExceeded => FailureCode::CapturedFileCountLimit,
        CaptureFailureKind::FileSizeLimitExceeded => FailureCode::CapturedFileSizeLimit,
        CaptureFailureKind::TotalSizeLimitExceeded => FailureCode::CapturedTotalSizeLimit,
        CaptureFailureKind::GitCarrierCountLimitExceeded => {
            FailureCode::CapturedGitCarrierCountLimit
        },
        CaptureFailureKind::GitCarrierSizeLimitExceeded => FailureCode::CapturedGitCarrierSizeLimit,
        CaptureFailureKind::TotalGitCarrierSizeLimitExceeded => {
            FailureCode::CapturedTotalGitCarrierSizeLimit
        },
        CaptureFailureKind::CarrierProducerUnavailable => FailureCode::GitBundleGenerationFailed,
        CaptureFailureKind::StagingUnavailable => FailureCode::OutputStagingUnavailable,
    }
}

/// The code of a Git artifact that could not be captured.
pub open spec fn git_capture_code(source: GitCaptureFailure) -> FailureCode {
    match source {
        GitCaptureFailure::Cancelled => FailureCode::OutputStagingUnavailable,
        GitCaptureFailure::Artifact => FailureCode::OutputStagingUnavailable,
        GitCaptureFailure::StagingMismatch => FailureCode::OutputStagingUnavailable,
        GitCaptureFailure::ExecutionRootRebound => FailureCode::GitExecutionRootRebound,
        GitCaptureFailure::HeadUnavailable => FailureCode::GitHeadUnavailable,
        GitCaptureFailure::BaselineNotAncestor => FailureCode::GitBaselineNotAncestor,
        GitCaptureFailure::CleanlinessUnavailable => FailureCode::GitCleanlinessUnavailable,
        GitCaptureFailure::WorkspaceDirty => FailureCode::GitWorkspaceDirty,
        GitCaptureFailure::TreeUnavailable => FailureCode::GitTreeUnavailable,
        GitCaptureFailure::RequiredObjectsUnavailable => FailureCode::GitRequiredObjectsUnavailable,
        GitCaptureFailure::SourceAuthorityChanged => FailureCode::GitSourceAuthorityChanged,
        GitCaptureFailure::GitStructureLimitExceeded => FailureCode::GitStructureLimitExceeded,
        GitCaptureFailure::CommandTimedOut => FailureCode::GitCommandTimedOut,
        GitCaptureFailure::BundleGenerationFailed => FailureCode::GitBundleGenerationFailed,
        GitCaptureFailure::BundleProfileInvalid => FailureCode::GitBundleProfileInvalid,
        GitCaptureFailure::BundleVerificationFailed => FailureCode::GitBundleVerificationFailed,
        GitCaptureFailure::WorkspaceChanged => FailureCode::GitWorkspaceChanged,
        GitCaptureFailure::TemporaryStorageUnavailable => {
            FailureCode::GitTemporaryStorageUnavailable
        },
    }
}

/// The code of a Git artifact that could not be captured.
fn code_of_git_capture(source: &GitCaptureFailure) -> (code: FailureCode)
    ensures
        code == git_capture_code(*source),
{
    match source {
        GitCaptureFailure::Cancelled => FailureCode::OutputStagingUnavailable,
        GitCaptureFailure::Artifact => FailureCode::OutputStagingUnavailable,
        GitCaptureFailure::StagingMismatch => FailureCode::OutputStagingUnavailable,
        GitCaptureFailure::ExecutionRootRebound => FailureCode::GitExecutionRootRebound,
        GitCaptureFailure::HeadUnavailable => FailureCode::GitHeadUnavailable,
        GitCaptureFailure::BaselineNotAncestor => FailureCode::GitBaselineNotAncestor,
        GitCaptureFailure::CleanlinessUnavailable => FailureCode::GitCleanlinessUnavailable,
        GitCaptureFailure::WorkspaceDirty => FailureCode::GitWorkspaceDirty,
        GitCaptureFailure::TreeUnavailable => FailureCode::GitTreeUnavailable,
        GitCaptureFailure::RequiredObjectsUnavailable => FailureCode::GitRequiredObjectsUnavailable,
        GitCaptureFailure::SourceAuthorityChanged => FailureCode::GitSourceAuthorityChanged,
        GitCaptureFailure::GitStructureLimitExceeded => FailureCode::GitStructureLimitExceeded,
        GitCaptureFailure::CommandTimedOut => FailureCode::GitCommandTimedOut,
        GitCaptureFailure::BundleGenerationFailed => FailureCode::GitBundleGenerationFailed,
        GitCaptureFailure::BundleProfileInvalid => FailureCode::GitBundleProfileInvalid,
        GitCaptureFailure::BundleVerificationFailed => FailureCode::GitBundleVerificationFailed,
        GitCaptureFailure::WorkspaceChanged => FailureCode::GitWorkspaceChanged,
        GitCaptureFailure::TemporaryStorageUnavailable => {
            FailureCode::GitTemporaryStorageUnavailable
        },
    }
}

/// The evidence of a step that could not be started, before its parts are
/// checked.
pub open spec fn start_failure_model(source: StepStartFailure) -> FailureModel {
    match source {
        StepStartFailure::InputPreparation(source) => FailureModel {
            input: optional_text(source.input_identity),
            collection_index: match source.collection_index {
                Some(index) => Some(index as u64),
                None => None,
            },
            ..FailureModel::of_code(FailurePhase::Start, input_preparation_code(source.kind))
        },
        StepStartFailure::StepUnavailable => FailureModel::of_code(
            FailurePhase::Start,
            FailureCode::StepUnavailable,
        ),
        StepStartFailure::PreparationTaskUnavailable => FailureModel::of_code(
            FailurePhase::Start,
            FailureCode::PreparationTaskUnavailable,
        ),
        StepStartFailure::InputsUnavailable => FailureModel::of_code(
            FailurePhase::Start,
            FailureCode::InputsUnavailable,
        ),
        StepStartFailure::AgentInput(source) => FailureModel::of_code(
            FailurePhase::Start,
            agent_input_code(source),
        ),
        StepStartFailure::Agent(source) => FailureModel::of_code(
            FailurePhase::Start,
            agent_code(source.cause),
        ),
        StepStartFailure::AgentRuntimeUnavailable => FailureModel::of_code(
            FailurePhase::Start,
            FailureCode::AgentRuntimeUnavailable,
        ),
        StepStartFailure::OutputsUnsupported => FailureModel::of_code(
            FailurePhase::Start,
            FailureCode::OutputsUnsupported,
        ),
        StepStartFailure::WorkingDirectory(source) => FailureModel::of_code(
            FailurePhase::Start,
            working_directory_code(source),
        ),
        StepStartFailure::CommandPreparation(source) => FailureModel::of_code(
            FailurePhase::Start,
            command_preparation_code(source),
        ),
        StepStartFailure::CommandLaunch(source) => FailureModel::of_code(
            FailurePhase::Start,
            command_launch_code(source),
        ),
    }
}

/// The evidence of a step that failed while it ran.
pub open spec fn execution_failure_model(source: StepExecutionFailure) -> FailureModel {
    match source {
        StepExecutionFailure::Command(
            CommandExecutionFailure::UnsuccessfulExit { code },
        ) => FailureModel {
            exit_code: code,
            ..FailureModel::of_code(FailurePhase::Execution, FailureCode::CommandExit)
        },
        StepExecutionFailure::Command(CommandExecutionFailure::Wait) => FailureModel::of_code(
            FailurePhase::Execution,
            FailureCode::CommandWaitFailed,
        ),
        StepExecutionFailure::Agent(source) => FailureModel::of_code(
            FailurePhase::Execution,
            agent_code(source.cause),
        ),
        StepExecutionFailure::TaskUnavailable => FailureModel::of_code(
            FailurePhase::Execution,
            FailureCode::ExecutionTaskUnavailable,
        ),
    }
}

/// The evidence of a step whose outputs could not be captured.
pub open spec fn output_capture_failure_model(source: OutputCaptureFailure) -> FailureModel {
    match source {
        OutputCaptureFailure::StepUnavailable => FailureModel::of_code(
            FailurePhase::OutputCapture,
            FailureCode::StepUnavailable,
        ),
        OutputCaptureFailure::UnsupportedOutput => FailureModel::of_code(
            FailurePhase::OutputCapture,
            FailureCode::OutputUnsupported,
        ),
        OutputCaptureFailure::TaskUnavailable => FailureModel::of_code(
            FailurePhase::OutputCapture,
            FailureCode::CaptureTaskUnavailable,
        ),
        OutputCaptureFailure::Capture(source) => FailureModel {
            output: Some(source.output_identity@),
            ..FailureModel::of_code(FailurePhase::OutputCapture, capture_code(source.kind))
        },
        OutputCaptureFailure::Git { output, failure } => FailureModel {
            output: Some(output@),
            ..FailureModel::of_code(FailurePhase::OutputCapture, git_capture_code(failure))
        },
    }
}

/// The evidence of a step's failure in `phase`, if the cause is one of that
/// phase and the parts fit together.
pub open spec fn failure_model(phase: FailurePhase, source: StepFailureCause) -> Result<
    FailureModel,
    EvidenceError,
> {
    match (phase, source) {
        (FailurePhase::Start, StepFailureCause::Start(source)) => checked_model(
            start_failure_model(source),
        ),
        (FailurePhase::Execution, StepFailureCause::Execution(source)) => checked_model(
            execution_failure_model(source),
        ),
        (FailurePhase::OutputCapture, StepFailureCause::OutputCapture(source)) => checked_model(
            output_capture_failure_model(source),
        ),
        _ => Err(EvidenceError::InvalidFailureCause),
    }
}

/// The model, if its parts fit together.
pub open spec fn checked_model(model: FailureModel) -> Result<FailureModel, EvidenceError> {
    if model.valid() {
        Ok(model)
    } else {
        Err(EvidenceError::InvalidFailureDetail)
    }
}

/// A copy of a string that may be there.
fn copy_optional(string: &Option<String>) -> (copy: Option<String>)
    ensures
        optional_text(copy) == optional_text(*string),
{
    match string {
        Some(string) => Some(string.clone()),
        None => None,
    }
}

/// A failure of which nothing but its phase and code is known.
pub fn code(phase: FailurePhase, failure_code: FailureCode) -> (detail: FailureDetail)
    ensures
        detail@ == FailureModel::of_code(phase, failure_code),
{
    FailureDetail::code(phase, failure_code)
}

/// The evidence of a step that could not be started.
pub fn start_failure_detail(source: &StepStartFailure) -> (created: Result<
    FailureDetail,
    EvidenceError,
>)
    ensures
        match created {
            Ok(detail) => checked_model(start_failure_model(*source)) == Ok::<
                FailureModel,
                EvidenceError,
            >(detail@),
            Err(error) => checked_model(start_failure_model(*source)) == Err::<
                FailureModel,
                EvidenceError,
            >(error),
        },
{
    let detail: FailureDetail = match source {
        StepStartFailure::StepUnavailable => code(
            FailurePhase::Start,
            FailureCode::StepUnavailable,
        ),
        StepStartFailure::PreparationTaskUnavailable => code(
            FailurePhase::Start,
            FailureCode::PreparationTaskUnavailable,
        ),
        StepStartFailure::InputsUnavailable => code(
            FailurePhase::Start,
            FailureCode::InputsUnavailable,
        ),
        StepStartFailure::InputPreparation(source) => {
            let mut detail: FailureDetail = code(
                FailurePhase::Start,
                code_of_input_preparation(&source.kind),
            );
            detail.input = copy_optional(&source.input_identity);
            detail.collection_index = match source.collection_index {
                Some(index) => Some(index as u64),
                None => None,
            };
            detail
        },
        StepStartFailure::AgentInput(source) => agent_input_failure_detail(source),
        StepStartFailure::Agent(source) => agent_failure_detail(FailurePhase::Start, source),
        StepStartFailure::AgentRuntimeUnavailable => code(
            FailurePhase::Start,
            FailureCode::AgentRuntimeUnavailable,
        ),
        StepStartFailure::OutputsUnsupported => code(
            FailurePhase::Start,
            FailureCode::OutputsUnsupported,
        ),
        StepStartFailure::WorkingDirectory(source) => working_directory_detail(source),
        StepStartFailure::CommandPreparation(source) => code(
            FailurePhase::Start,
            code_of_command_preparation(source),
        ),
        StepStartFailure::CommandLaunch(source) => code(
            FailurePhase::Start,
            code_of_command_launch(source),
        ),
    };
    detail.validate()?;
    Ok(detail)
}

/// The evidence of a step that failed while it ran.
pub fn execution_failure_detail(source: &StepExecutionFailure) -> (detail: FailureDetail)
    ensures
        detail@ == execution_failure_model(*source),
{
    match source {
        StepExecutionFailure::Command(
            CommandExecutionFailure::UnsuccessfulExit { code: status },
        ) => {
            let mut detail: FailureDetail = code(FailurePhase::Execution, FailureCode::CommandExit);
            detail.exit_code = *status;
            detail
        },
        StepExecutionFailure::Command(CommandExecutionFailure::Wait) => code(
            FailurePhase::Execution,
            FailureCode::CommandWaitFailed,
        ),
        StepExecutionFailure::Agent(source) => agent_failure_detail(
            FailurePhase::Execution,
            source,
        ),
        StepExecutionFailure::TaskUnavailable => code(
            FailurePhase::Execution,
            FailureCode::ExecutionTaskUnavailable,
        ),
    }
}

/// The evidence of a step whose outputs could not be captured.
pub fn output_capture_failure_detail(source: &OutputCaptureFailure) -> (detail: FailureDetail)
    ensures
        detail@ == output_capture_failure_model(*source),
{
    let (failure_code, output) = match source {
        OutputCaptureFailure::StepUnavailable => (FailureCode::StepUnavailable, None),
        OutputCaptureFailure::UnsupportedOutput => (FailureCode::OutputUnsupported, None),
        OutputCaptureFailure::TaskUnavailable => (FailureCode::CaptureTaskUnavailable, None),
        OutputCaptureFailure::Capture(source) => (
            code_of_capture(&source.kind),
            Some(source.output_identity.clone()),
        ),
        OutputCaptureFailure::Git { output, failure } => (
            code_of_git_capture(failure),
            Some(output.clone()),
        ),
    };
    let mut detail: FailureDetail = code(FailurePhase::OutputCapture, failure_code);
    detail.output = output;
    detail
}

/// The evidence of a step's failure in `phase`.
pub fn failure_detail(phase: FailurePhase, source: &StepFailureCause) -> (created: Result<
    FailureDetail,
    EvidenceError,
>)
    ensures
        match created {
            Ok(detail) => failure_model(phase, *source) == Ok::<FailureModel, EvidenceError>(
                detail@,
            ),
            Err(error) => failure_model(phase, *source) == Err::<FailureModel, EvidenceError>(
                error,
            ),
        },
{
    let detail: FailureDetail = match (phase, source) {
        (FailurePhase::Start, StepFailureCause::Start(source)) => start_failure_detail(source)?,
        (FailurePhase::Execution, StepFailureCause::Execution(source)) => execution_failure_detail(
            source,
        ),
        (
            FailurePhase::OutputCapture,
            StepFailureCause::OutputCapture(source),
        ) => output_capture_failure_detail(source),
        _ => {
            return Err(EvidenceError::InvalidFailureCause);
        },
    };
    detail.validate()?;
    Ok(detail)
}

impl StepFailureCause {
    /// The evidence of the failure in `phase`.
    pub fn node_failure_detail(&self, phase: FailurePhase) -> (created: Result<
        FailureDetail,
        EvidenceError,
    >)
        ensures
            match created {
                Ok(detail) => failure_model(phase, *self) == Ok::<FailureModel, EvidenceError>(
                    detail@,
                ),
                Err(error) => failure_model(phase, *self) == Err::<FailureModel, EvidenceError>(
                    error,
                ),
            },
    {
        failure_detail(phase, self)
    }
}

/// Evidence of a failure is made in the phase that it was asked for, and its
/// parts fit together.
pub proof fn law_failure_evidence_is_valid(phase: FailurePhase, source: StepFailureCause)
    ensures
        failure_model(phase, source) matches Ok(model) ==> model.valid() && model.phase == phase,
{
}

/// Every failure of a running step has evidence, unless its command is said to
/// have failed with exit code zero.
pub proof fn law_execution_failures_have_evidence(source: StepExecutionFailure)
    ensures
        failure_model(FailurePhase::Execution, StepFailureCause::Execution(source)) is Ok <==> !(
        source matches StepExecutionFailure::Command(
            CommandExecutionFailure::UnsuccessfulExit { code: Some(status) },
        ) && status == 0),
{
}

/// Every failure to capture outputs has evidence, unless it names an output that
/// is no value identifier.
pub proof fn law_capture_failures_have_evidence(source: OutputCaptureFailure)
    ensures
        failure_model(
            FailurePhase::OutputCapture,
            StepFailureCause::OutputCapture(source),
        ) is Ok <==> (output_capture_failure_model(source).output matches Some(output)
            ==> value_identifier(encode_utf8(output))),
{
}

/// Every failure to start a step has evidence, unless it concerns an input that
/// is not named as it has to be, or an element of an input whose name is
/// invalid.
pub proof fn law_start_failures_have_evidence(source: StepStartFailure)
    ensures
        failure_model(FailurePhase::Start, StepFailureCause::Start(source)) is Ok <==> (
        start_failure_model(source).input_fits() && !(
        source matches StepStartFailure::InputPreparation(failure) && failure.kind
            == InputPreparationFailureKind::InvalidInputName && failure.collection_index is Some)),
{
}

} // verus!

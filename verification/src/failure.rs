//! Why a step could not be started, failed while it ran, or left outputs that
//! could not be captured.

use vstd::prelude::*;

use crate::agent::AgentFailure;

verus! {

/// Why an input could not be prepared.
#[derive(Clone, Copy, Debug, PartialEq, Eq, Structural)]
pub enum InputPreparationFailureKind {
    InvalidInputName,
    ValueCountLimitExceeded,
    ValueSizeLimitExceeded,
    TotalSizeLimitExceeded,
    CollectionOrdinalLimitExceeded,
    ValueTypeMismatch,
    SourceUnavailable,
    StagingUnavailable,
    LiveLimitExceeded,
}

/// An input that could not be prepared.
#[derive(Clone, Debug, PartialEq, Eq)]
pub struct InputPreparationFailure {
    pub kind: InputPreparationFailureKind,
    pub input_identity: Option<String>,
    pub collection_index: Option<usize>,
}

/// Why a working directory could not be used.
#[derive(Clone, Copy, Debug, PartialEq, Eq, Structural)]
pub enum WorkingDirectoryFailure {
    ExecutionRootRebound,
    Unavailable,
    EscapesExecutionRoot,
    NotDirectory,
}

/// Why an agent's input could not be prepared.
#[derive(Clone, Copy, Debug, PartialEq, Eq, Structural)]
pub enum AgentInputStartFailure {
    StepUnavailable,
    AgentAdmissionUnavailable,
    InputsUnavailable,
    MissingUpstreamValue,
    ValueTypeMismatch,
    RetainedSourceUnavailable,
    InvalidRetainedText,
    ResultSchemaUnavailable,
    InvalidValueMode,
    AttachmentCountLimitExceeded,
    AttachmentBytesLimitExceeded,
    WorkingDirectory(WorkingDirectoryFailure),
    ArtifactStagingMismatch,
    AgentStagingMismatch,
    StagingUnavailable,
}

/// Why a command could not be prepared.
#[derive(Clone, Copy, Debug, PartialEq, Eq, Structural)]
pub enum CommandPreparationFailure {
    InvalidArgv,
    PathNotConfigured,
    ExecutableNotFound,
    ExecutableUnavailable,
}

/// Why a command could not be launched.
#[derive(Clone, Copy, Debug, PartialEq, Eq, Structural)]
pub enum CommandLaunchFailure {
    NotFound,
    PermissionDenied,
    InvalidInput,
    Other,
}

/// Why a step could not be started.
#[derive(Clone, Debug, PartialEq, Eq)]
pub enum StepStartFailure {
    StepUnavailable,
    PreparationTaskUnavailable,
    InputsUnavailable,
    InputPreparation(InputPreparationFailure),
    AgentInput(AgentInputStartFailure),
    Agent(AgentFailure),
    AgentRuntimeUnavailable,
    OutputsUnsupported,
    WorkingDirectory(WorkingDirectoryFailure),
    CommandPreparation(CommandPreparationFailure),
    CommandLaunch(CommandLaunchFailure),
}

/// Why a running command failed.
#[derive(Clone, Copy, Debug, PartialEq, Eq, Structural)]
pub enum CommandExecutionFailure {
    UnsuccessfulExit { code: Option<i32> },
    Wait,
}

/// Why a running step failed.
#[derive(Clone, Copy, Debug, PartialEq, Eq, Structural)]
pub enum StepExecutionFailure {
    Command(CommandExecutionFailure),
    Agent(AgentFailure),
    TaskUnavailable,
}

/// Why an output could not be captured.
#[derive(Clone, Copy, Debug, PartialEq, Eq, Structural)]
pub enum CaptureFailureKind {
    AbsolutePath,
    LexicalEscape,
    EmptyPath,
    Missing,
    SymbolicLink,
    NotDirectory,
    NotRegularFile,
    SourceUnavailable,
    InvalidTextEncoding,
    InvalidJson,
    DuplicateJsonMember,
    JsonSchemaMismatch,
    FileCountLimitExceeded,
    FileSizeLimitExceeded,
    TotalSizeLimitExceeded,
    GitCarrierCountLimitExceeded,
    GitCarrierSizeLimitExceeded,
    TotalGitCarrierSizeLimitExceeded,
    CarrierProducerUnavailable,
    StagingUnavailable,
}

/// An output that could not be captured.
#[derive(Clone, Debug, PartialEq, Eq)]
pub struct CaptureFailure {
    pub kind: CaptureFailureKind,
    pub output_identity: String,
}

/// Why a Git artifact could not be captured.
#[derive(Clone, Copy, Debug, PartialEq, Eq, Structural)]
pub enum GitCaptureFailure {
    Cancelled,
    Artifact,
    StagingMismatch,
    ExecutionRootRebound,
    HeadUnavailable,
    BaselineNotAncestor,
    CleanlinessUnavailable,
    WorkspaceDirty,
    TreeUnavailable,
    RequiredObjectsUnavailable,
    SourceAuthorityChanged,
    GitStructureLimitExceeded,
    CommandTimedOut,
    BundleGenerationFailed,
    BundleProfileInvalid,
    BundleVerificationFailed,
    WorkspaceChanged,
    TemporaryStorageUnavailable,
}

/// Why the outputs of a step could not be captured.
#[derive(Clone, Debug, PartialEq, Eq)]
pub enum OutputCaptureFailure {
    StepUnavailable,
    UnsupportedOutput,
    TaskUnavailable,
    Capture(CaptureFailure),
    Git { output: String, failure: GitCaptureFailure },
}

/// Why a step failed.
#[derive(Clone, Debug, PartialEq, Eq)]
pub enum StepFailureCause {
    Start(StepStartFailure),
    Execution(StepExecutionFailure),
    OutputCapture(OutputCaptureFailure),
}

} // verus!

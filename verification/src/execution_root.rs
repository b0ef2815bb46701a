//! The directory that a run works in, and the working directories within it.

use vstd::prelude::*;
use vstd::string::StringSliceAdditionalSpecFns;

use crate::bytes::copy_bytes;
use crate::path::{join_path, joined};

verus! {

/// Why an execution root was not admitted.
#[derive(Clone, Copy, Debug, PartialEq, Eq, Structural)]
pub enum ExecutionRootAdmissionFailure {
    Unavailable,
    NotDirectory,
}

/// Why a working directory was not selected.
#[derive(Clone, Copy, Debug, PartialEq, Eq, Structural)]
pub enum WorkingDirectorySelectionFailure {
    ExecutionRootRebound,
    Unavailable,
    EscapesExecutionRoot,
    NotDirectory,
}

/// What a path is as a program.
#[derive(Clone, Copy, Debug, PartialEq, Eq, Structural)]
pub enum ExecutableCandidate {
    Executable,
    Missing,
    Unavailable,
}

/// Which directory a descriptor leads to.
#[derive(Clone, Copy, Debug, PartialEq, Eq, Structural)]
pub struct DirectoryIdentity {
    pub device: u64,
    pub inode: u64,
}

/// What opening a directory came to.
#[derive(Clone, Copy, Debug, PartialEq, Eq, Structural)]
pub enum OpenedDirectory {
    /// It was opened, and perhaps identified.
    Open { identity: Option<DirectoryIdentity> },
    /// It was not opened, perhaps because it is no directory.
    Refused { not_a_directory: bool },
}

/// What the climb from a working directory does next.
#[derive(Clone, Copy, Debug, PartialEq, Eq, Structural)]
pub enum ContainmentAction {
    OpenParent { reached: DirectoryIdentity },
    Inside,
    Outside,
    Fail,
}

/// Where the selection of a working directory stands.
#[derive(Clone, Copy, Debug, PartialEq, Eq, Structural)]
pub enum SelectionPhase {
    Binding,
    Opening,
    Containing,
}

/// What the last step of a selection came to.
#[derive(Clone, Copy, Debug, PartialEq, Eq, Structural)]
pub enum SelectionEvent {
    Bound { bound: bool },
    Opened,
    OpenRefused { not_a_directory: bool },
    Contained { inside: bool },
    ContainmentUnknown,
}

/// What a selection does next.
#[derive(Clone, Copy, Debug, PartialEq, Eq, Structural)]
pub enum SelectionAction {
    OpenDirectory,
    CheckContainment,
    Select,
    Refuse { failure: WorkingDirectorySelectionFailure },
}

/// What is known of a path.
#[derive(Clone, Copy, Debug, PartialEq, Eq, Structural)]
pub enum CandidateStatus {
    Missing,
    Unknown,
    Present { regular: bool },
}

/// Whether two admitted roots are one directory.
pub fn is_same_directory(left: DirectoryIdentity, right: DirectoryIdentity) -> (same: bool)
    ensures
        same == (left == right),
{
    left == right
}

/// The path of a working directory: the root's, or the declared one taken from it.
pub fn working_directory_path(root: &[u8], declared: Option<&str>) -> (path: Vec<u8>)
    ensures
        path@ == (match declared {
            Some(declared) => joined(root@, declared.spec_bytes()),
            None => root@,
        }),
{
    match declared {
        None => copy_bytes(root),
        Some(declared) => join_path(root, declared.as_bytes()),
    }
}

/// Why an execution root whose path could not be opened is not admitted.
pub open spec fn open_failure_rule(not_a_directory: bool) -> ExecutionRootAdmissionFailure {
    if not_a_directory {
        ExecutionRootAdmissionFailure::NotDirectory
    } else {
        ExecutionRootAdmissionFailure::Unavailable
    }
}

/// Why an execution root whose path could not be opened is not admitted.
pub fn open_failure(not_a_directory: bool) -> (decided: ExecutionRootAdmissionFailure)
    ensures
        decided == open_failure_rule(not_a_directory),
{
    if not_a_directory {
        ExecutionRootAdmissionFailure::NotDirectory
    } else {
        ExecutionRootAdmissionFailure::Unavailable
    }
}

/// Admits an execution root by what resolving and opening its path came to.
pub open spec fn admit_root_rule(
    path_resolved: bool,
    opened: OpenedDirectory,
) -> Result<DirectoryIdentity, ExecutionRootAdmissionFailure> {
    if !path_resolved {
        Err(ExecutionRootAdmissionFailure::Unavailable)
    } else {
        match opened {
            OpenedDirectory::Open { identity: Some(identity) } => Ok(identity),
            OpenedDirectory::Open { identity: None } => Err(
                ExecutionRootAdmissionFailure::Unavailable,
            ),
            OpenedDirectory::Refused { not_a_directory } => Err(open_failure_rule(not_a_directory)),
        }
    }
}

/// Admits an execution root by what resolving and opening its path came to.
pub fn admit_root(
    path_resolved: bool,
    opened: OpenedDirectory,
) -> (decided: Result<DirectoryIdentity, ExecutionRootAdmissionFailure>)
    ensures
        decided == admit_root_rule(path_resolved, opened),
{
    if !path_resolved {
        Err(ExecutionRootAdmissionFailure::Unavailable)
    } else {
        match opened {
            OpenedDirectory::Open { identity: Some(identity) } => Ok(identity),
            OpenedDirectory::Open { identity: None } => Err(
                ExecutionRootAdmissionFailure::Unavailable,
            ),
            OpenedDirectory::Refused { not_a_directory } => Err(open_failure(not_a_directory)),
        }
    }
}

/// Whether the path of an execution root still leads to the directory that was
/// admitted.
pub open spec fn pathname_is_bound_rule(root: DirectoryIdentity, opened: OpenedDirectory) -> bool {
    match opened {
        OpenedDirectory::Open { identity: Some(identity) } => identity == root,
        _ => false,
    }
}

/// Whether the path of an execution root still leads to the directory that was
/// admitted.
pub fn pathname_is_bound(root: DirectoryIdentity, opened: OpenedDirectory) -> (decided: bool)
    ensures
        decided == pathname_is_bound_rule(root, opened),
{
    match opened {
        OpenedDirectory::Open { identity: Some(identity) } => identity == root,
        _ => false,
    }
}

/// Decides on a directory that the climb from a working directory has reached, by
/// the one it was reached from. The climb ends at the execution root, or at the
/// directory that is its own parent.
pub open spec fn contains_directory_rule(
    root: DirectoryIdentity,
    below: Option<DirectoryIdentity>,
    reached: Option<DirectoryIdentity>,
) -> ContainmentAction {
    match reached {
        None => ContainmentAction::Fail,
        Some(identity) => if below == Some(identity) {
            ContainmentAction::Outside
        } else if identity == root {
            ContainmentAction::Inside
        } else {
            ContainmentAction::OpenParent { reached: identity }
        },
    }
}

/// Decides on a directory that the climb from a working directory has reached, by
/// the one it was reached from. The climb ends at the execution root, or at the
/// directory that is its own parent.
pub fn contains_directory(
    root: DirectoryIdentity,
    below: Option<DirectoryIdentity>,
    reached: Option<DirectoryIdentity>,
) -> (decided: ContainmentAction)
    ensures
        decided == contains_directory_rule(root, below, reached),
{
    match reached {
        None => ContainmentAction::Fail,
        Some(identity) => if below == Some(identity) {
            ContainmentAction::Outside
        } else if identity == root {
            ContainmentAction::Inside
        } else {
            ContainmentAction::OpenParent { reached: identity }
        },
    }
}

/// Takes up what the last step of selecting a working directory came to: the root
/// must still be bound, then the directory must open, then it must lie within the
/// root.
pub open spec fn select_working_directory_rule(
    phase: SelectionPhase,
    event: SelectionEvent,
) -> SelectionAction {
    match phase {
        SelectionPhase::Binding => match event {
            SelectionEvent::Bound { bound: true } => SelectionAction::OpenDirectory,
            _ => SelectionAction::Refuse {
                failure: WorkingDirectorySelectionFailure::ExecutionRootRebound,
            },
        },
        SelectionPhase::Opening => match event {
            SelectionEvent::Opened => SelectionAction::CheckContainment,
            SelectionEvent::OpenRefused { not_a_directory: true } => SelectionAction::Refuse {
                failure: WorkingDirectorySelectionFailure::NotDirectory,
            },
            _ => SelectionAction::Refuse {
                failure: WorkingDirectorySelectionFailure::Unavailable,
            },
        },
        SelectionPhase::Containing => match event {
            SelectionEvent::Contained { inside: true } => SelectionAction::Select,
            SelectionEvent::Contained { inside: false } => SelectionAction::Refuse {
                failure: WorkingDirectorySelectionFailure::EscapesExecutionRoot,
            },
            _ => SelectionAction::Refuse {
                failure: WorkingDirectorySelectionFailure::Unavailable,
            },
        },
    }
}

/// Takes up what the last step of selecting a working directory came to: the root
/// must still be bound, then the directory must open, then it must lie within the
/// root.
pub fn select_working_directory(
    phase: SelectionPhase,
    event: SelectionEvent,
) -> (decided: SelectionAction)
    ensures
        decided == select_working_directory_rule(phase, event),
{
    match phase {
        SelectionPhase::Binding => match event {
            SelectionEvent::Bound { bound: true } => SelectionAction::OpenDirectory,
            _ => SelectionAction::Refuse {
                failure: WorkingDirectorySelectionFailure::ExecutionRootRebound,
            },
        },
        SelectionPhase::Opening => match event {
            SelectionEvent::Opened => SelectionAction::CheckContainment,
            SelectionEvent::OpenRefused { not_a_directory: true } => SelectionAction::Refuse {
                failure: WorkingDirectorySelectionFailure::NotDirectory,
            },
            _ => SelectionAction::Refuse {
                failure: WorkingDirectorySelectionFailure::Unavailable,
            },
        },
        SelectionPhase::Containing => match event {
            SelectionEvent::Contained { inside: true } => SelectionAction::Select,
            SelectionEvent::Contained { inside: false } => SelectionAction::Refuse {
                failure: WorkingDirectorySelectionFailure::EscapesExecutionRoot,
            },
            _ => SelectionAction::Refuse {
                failure: WorkingDirectorySelectionFailure::Unavailable,
            },
        },
    }
}

/// Whether the resolved path of a working directory can be handed to an agent: it
/// must lead to the directory that was selected.
pub open spec fn protocol_path_rule(
    root_bound: bool,
    resolved: bool,
    selected: Option<DirectoryIdentity>,
    candidate: Option<DirectoryIdentity>,
) -> Result<(), WorkingDirectorySelectionFailure> {
    if !root_bound {
        Err(WorkingDirectorySelectionFailure::ExecutionRootRebound)
    } else if resolved && selected is Some && candidate == selected {
        Ok(())
    } else {
        Err(WorkingDirectorySelectionFailure::Unavailable)
    }
}

/// Whether the resolved path of a working directory can be handed to an agent: it
/// must lead to the directory that was selected.
pub fn protocol_path(
    root_bound: bool,
    resolved: bool,
    selected: Option<DirectoryIdentity>,
    candidate: Option<DirectoryIdentity>,
) -> (decided: Result<(), WorkingDirectorySelectionFailure>)
    ensures
        decided == protocol_path_rule(root_bound, resolved, selected, candidate),
{
    if !root_bound {
        Err(WorkingDirectorySelectionFailure::ExecutionRootRebound)
    } else if resolved && selected.is_some() && candidate == selected {
        Ok(())
    } else {
        Err(WorkingDirectorySelectionFailure::Unavailable)
    }
}

/// Whether a command can be bound to a directory: the root must still be bound, and
/// the descriptor must have been duplicated.
pub open spec fn bind_command_ref_rule(
    root_bound: bool,
    duplicated: bool,
) -> Result<(), WorkingDirectorySelectionFailure> {
    if !root_bound {
        Err(WorkingDirectorySelectionFailure::ExecutionRootRebound)
    } else if !duplicated {
        Err(WorkingDirectorySelectionFailure::Unavailable)
    } else {
        Ok(())
    }
}

/// Whether a command can be bound to a directory: the root must still be bound, and
/// the descriptor must have been duplicated.
pub fn bind_command_ref(
    root_bound: bool,
    duplicated: bool,
) -> (decided: Result<(), WorkingDirectorySelectionFailure>)
    ensures
        decided == bind_command_ref_rule(root_bound, duplicated),
{
    if !root_bound {
        Err(WorkingDirectorySelectionFailure::ExecutionRootRebound)
    } else if !duplicated {
        Err(WorkingDirectorySelectionFailure::Unavailable)
    } else {
        Ok(())
    }
}

/// What a path is as a program: a regular file that may be executed, nothing, or
/// something that cannot be used.
pub open spec fn executable_candidate_rule(
    status: CandidateStatus,
    executable: bool,
) -> ExecutableCandidate {
    match status {
        CandidateStatus::Missing => ExecutableCandidate::Missing,
        CandidateStatus::Unknown => ExecutableCandidate::Unavailable,
        CandidateStatus::Present { regular } => if regular && executable {
            ExecutableCandidate::Executable
        } else {
            ExecutableCandidate::Unavailable
        },
    }
}

/// What a path is as a program: a regular file that may be executed, nothing, or
/// something that cannot be used.
pub fn executable_candidate(
    status: CandidateStatus,
    executable: bool,
) -> (decided: ExecutableCandidate)
    ensures
        decided == executable_candidate_rule(status, executable),
{
    match status {
        CandidateStatus::Missing => ExecutableCandidate::Missing,
        CandidateStatus::Unknown => ExecutableCandidate::Unavailable,
        CandidateStatus::Present { regular } => if regular && executable {
            ExecutableCandidate::Executable
        } else {
            ExecutableCandidate::Unavailable
        },
    }
}

/// Where a climb through these directories ends, from one to its parent: within
/// the root, outside it, or not at all.
pub open spec fn climbed(
    root: DirectoryIdentity,
    below: Option<DirectoryIdentity>,
    directories: Seq<DirectoryIdentity>,
) -> Option<bool>
    decreases directories.len(),
{
    if directories.len() == 0 {
        None
    } else {
        match contains_directory_rule(root, below, Some(directories[0])) {
            ContainmentAction::Inside => Some(true),
            ContainmentAction::Outside => Some(false),
            ContainmentAction::Fail => None,
            ContainmentAction::OpenParent { reached } => climbed(
                root,
                Some(reached),
                directories.skip(1),
            ),
        }
    }
}

/// A directory lies within the root exactly if the root is among the directories
/// from it up to the one that is its own parent.
pub proof fn law_containment_is_ancestry(
    root: DirectoryIdentity,
    directories: Seq<DirectoryIdentity>,
)
    requires
        directories.len() > 0,
        forall|i: int|
            0 <= i < directories.len() - 1 ==> #[trigger] directories[i] != directories[i + 1],
    ensures
        climbed(root, None, directories.push(directories.last())) == Some(
            directories.contains(root),
        ),
{
    lemma_climb(root, None, directories);
}

/// A climb finds the root exactly if it is ahead.
proof fn lemma_climb(
    root: DirectoryIdentity,
    below: Option<DirectoryIdentity>,
    directories: Seq<DirectoryIdentity>,
)
    requires
        directories.len() > 0,
        below != Some(directories[0]),
        forall|i: int|
            0 <= i < directories.len() - 1 ==> #[trigger] directories[i] != directories[i + 1],
    ensures
        climbed(root, below, directories.push(directories.last())) == Some(
            directories.contains(root),
        ),
    decreases directories.len(),
{
    let whole = directories.push(directories.last());
    assert(whole[0] == directories[0]);
    if directories[0] == root {
        assert(directories.contains(root));
    } else if directories.len() == 1 {
        assert(whole.skip(1)[0] == directories[0]);
        reveal_with_fuel(climbed, 2);
        assert(!directories.contains(root));
    } else {
        let rest = directories.skip(1);
        assert forall|i: int| 0 <= i < rest.len() - 1 implies #[trigger] rest[i] != rest[i + 1] by {
            assert(rest[i] == directories[i + 1] && rest[i + 1] == directories[i + 2]);
        }
        assert(directories[0] != directories[0int + 1]);
        lemma_climb(root, Some(directories[0]), rest);
        assert(whole.skip(1) =~= rest.push(rest.last()));
        assert(rest.contains(root) == directories.contains(root)) by {
            if rest.contains(root) {
                let i = choose|i: int| 0 <= i < rest.len() && rest[i] == root;
                assert(directories[i + 1] == root);
            }
            if directories.contains(root) {
                let i = choose|i: int| 0 <= i < directories.len() && directories[i] == root;
                assert(rest[i - 1] == root);
            }
        }
    }
}

/// A working directory is selected only after the root was found bound, the
/// directory opened and its containment shown, in that order.
pub proof fn law_selection_is_contained(phase: SelectionPhase, event: SelectionEvent)
    ensures
        select_working_directory_rule(phase, event) == SelectionAction::Select <==> phase
            == SelectionPhase::Containing && event == (SelectionEvent::Contained { inside: true }),
        select_working_directory_rule(phase, event) == SelectionAction::CheckContainment <==> phase
            == SelectionPhase::Opening && event == SelectionEvent::Opened,
        select_working_directory_rule(phase, event) == SelectionAction::OpenDirectory <==> phase
            == SelectionPhase::Binding && event == (SelectionEvent::Bound { bound: true }),
{
}

} // verus!

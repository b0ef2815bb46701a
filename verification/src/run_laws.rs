//! What a run is bound to, what it tells its finalizers and what is kept of its processes.

use vstd::prelude::*;
use vstd::string::StringSliceAdditionalSpecFns;
use vstd::utf8::encode_utf8;

use crate::bytes::bytes_before;
use crate::command_contract::{
    require_serve_workflow, ServeWorkflowContractFailure, ServeWorkflowContractFailureKind,
};
use crate::diagnostic::{
    admitted, by_invocation, captured, entry_index, keyed, raw_error_text, recorded, reported,
    spawn_failure_kept, spawn_line, CaptureModel, RecordedDiagnostic, StepDiagnostic,
};
use crate::document::{FailurePolicy, FinalizationTrigger, WorkflowDefinition};
use crate::evidence::{CancellationReason, EvidenceError, FailurePhase};
use crate::execution_root::{
    admit_root_rule, bind_command_ref_rule, contains_directory_rule, executable_candidate_rule,
    pathname_is_bound_rule, protocol_path_rule, select_working_directory_rule,
    working_directory_path, CandidateStatus, ContainmentAction, DirectoryIdentity,
    ExecutableCandidate, ExecutionRootAdmissionFailure, OpenedDirectory, SelectionAction,
    SelectionEvent, SelectionPhase, WorkingDirectorySelectionFailure,
};
use crate::finalization_context::{
    context_text, insert_issue, issue_before, issue_text, issues_text, ordered_issues,
    serialized_context, FinalizationContext, IssueModel, OrdinaryIssue, OrdinaryIssueDisposition,
};
use crate::force_abort_evidence::{
    finalization_cancellation_matches_force_phase, finalization_node_cancellation_matches,
    ordinary_node_cancellation_matches, FirstForceAbortPhase,
};
use crate::json_text::json_quoted;
use crate::named::{
    entry_names, has_name, is_named, name_before, name_index, values_by_name,
};
use crate::path::joined;
use crate::runtime::{ActionId, ForceAbortPhaseV1, RunCancellationPhase};
use crate::text::{decimal_text, texts};

verus! {

/// A root is admitted exactly if its path was resolved and led to a directory that was
/// identified, and then as that directory. What is no directory is told as that.
pub proof fn law_roots_are_admitted_as_opened(
    path_resolved: bool,
    opened: OpenedDirectory,
    identity: DirectoryIdentity,
)
    ensures
        admit_root_rule(path_resolved, opened) == Ok::<
            DirectoryIdentity,
            ExecutionRootAdmissionFailure,
        >(identity) <==> path_resolved && opened == (OpenedDirectory::Open {
            identity: Some(identity),
        }),
        admit_root_rule(path_resolved, opened) == Err::<
            DirectoryIdentity,
            ExecutionRootAdmissionFailure,
        >(ExecutionRootAdmissionFailure::NotDirectory) <==> path_resolved && opened == (
        OpenedDirectory::Refused { not_a_directory: true }),
{
}

/// A path is bound to a root exactly if it leads to that directory.
pub proof fn law_bound_paths_lead_to_their_root(root: DirectoryIdentity, opened: OpenedDirectory)
    ensures
        pathname_is_bound_rule(root, opened) <==> opened == (OpenedDirectory::Open {
            identity: Some(root),
        }),
{
}

/// A climb goes on to the parent of each directory that is neither the root nor its own
/// parent; at its own parent it has missed the root, and what cannot be identified ends it.
pub proof fn law_climbs_go_up_to_the_root(
    root: DirectoryIdentity,
    below: Option<DirectoryIdentity>,
    reached: Option<DirectoryIdentity>,
)
    ensures
        contains_directory_rule(root, below, reached) == ContainmentAction::Fail <==> reached
            is None,
        contains_directory_rule(root, below, reached) == ContainmentAction::Outside <==> reached
            is Some && below == reached,
        contains_directory_rule(root, below, reached) == ContainmentAction::Inside <==> reached
            == Some(root) && below != reached,
        contains_directory_rule(root, below, reached) matches ContainmentAction::OpenParent {
            reached: next,
        } ==> reached == Some(next) && next != root && below != reached,
{
}

/// A working directory is refused for the step that failed: the binding, the opening or the
/// containment; what is no directory is told as that.
pub proof fn law_refused_directories_tell_why(
    phase: SelectionPhase,
    event: SelectionEvent,
    failure: WorkingDirectorySelectionFailure,
)
    requires
        select_working_directory_rule(phase, event) == (SelectionAction::Refuse { failure }),
    ensures
        phase == SelectionPhase::Binding ==> failure
            == WorkingDirectorySelectionFailure::ExecutionRootRebound,
        phase == SelectionPhase::Opening ==> failure == (if event == (SelectionEvent::OpenRefused {
            not_a_directory: true,
        }) {
            WorkingDirectorySelectionFailure::NotDirectory
        } else {
            WorkingDirectorySelectionFailure::Unavailable
        }),
        phase == SelectionPhase::Containing ==> failure == (if event == (
        SelectionEvent::Contained { inside: false }) {
            WorkingDirectorySelectionFailure::EscapesExecutionRoot
        } else {
            WorkingDirectorySelectionFailure::Unavailable
        }),
{
}

/// A path is handed to an agent exactly if the root is still bound and the path leads to the
/// directory that was selected; a command is bound exactly if the root is and its descriptor
/// was duplicated. A rebound root is told first.
pub proof fn law_directories_are_handed_on_while_bound(
    root_bound: bool,
    resolved: bool,
    selected: Option<DirectoryIdentity>,
    candidate: Option<DirectoryIdentity>,
)
    ensures
        protocol_path_rule(root_bound, resolved, selected, candidate) is Ok <==> root_bound
            && resolved && selected is Some && selected == candidate,
        bind_command_ref_rule(root_bound, resolved) is Ok <==> root_bound && resolved,
        !root_bound ==> protocol_path_rule(root_bound, resolved, selected, candidate) == Err::<
            (),
            WorkingDirectorySelectionFailure,
        >(WorkingDirectorySelectionFailure::ExecutionRootRebound) && bind_command_ref_rule(
            root_bound,
            resolved,
        ) == Err::<(), WorkingDirectorySelectionFailure>(
            WorkingDirectorySelectionFailure::ExecutionRootRebound,
        ),
        root_bound && !resolved ==> protocol_path_rule(root_bound, resolved, selected, candidate)
            == Err::<(), WorkingDirectorySelectionFailure>(
            WorkingDirectorySelectionFailure::Unavailable,
        ) && bind_command_ref_rule(root_bound, resolved) == Err::<
            (),
            WorkingDirectorySelectionFailure,
        >(WorkingDirectorySelectionFailure::Unavailable),
{
}

/// A program is a regular file that may be executed; nothing is missing, and all else cannot be
/// used.
pub proof fn law_programs_are_executable_files(status: CandidateStatus, executable: bool)
    ensures
        executable_candidate_rule(status, executable) == ExecutableCandidate::Executable
            <==> executable && status == (CandidateStatus::Present { regular: true }),
        executable_candidate_rule(status, executable) == ExecutableCandidate::Missing <==> status
            == CandidateStatus::Missing,
{
}

/// A working directory is what is declared, taken from the root; the root where nothing is.
pub proof fn law_working_directories_are_taken_from_the_root(
    root: &[u8],
    declared: Option<&str>,
    path: Vec<u8>,
)
    requires
        call_ensures(working_directory_path, (root, declared), path),
    ensures
        declared is None ==> path@ == root@,
        declared matches Some(name) ==> path@ == joined(root@, name.spec_bytes()),
{
}

/// An ordinary node is cancelled by the run's cancellation, or by a force abort that met
/// ordinary nodes first; a finalizer by its own cancellation or by any force abort. A force
/// abort that met ordinary nodes first has cancelled finalization for its own reason.
pub proof fn law_nodes_are_cancelled_by_what_met_them(
    actual: CancellationReason,
    cancellation: Option<CancellationReason>,
    force_abort_reason: CancellationReason,
    first: Option<FirstForceAbortPhase>,
    force_abort: bool,
    ordinary: bool,
    finalizer: bool,
    agrees: bool,
)
    requires
        call_ensures(
            ordinary_node_cancellation_matches,
            (actual, cancellation, force_abort_reason, first),
            ordinary,
        ),
        call_ensures(
            finalization_node_cancellation_matches,
            (actual, cancellation, force_abort_reason, force_abort),
            finalizer,
        ),
        call_ensures(
            finalization_cancellation_matches_force_phase,
            (cancellation, force_abort_reason, first),
            agrees,
        ),
    ensures
        cancellation == Some(actual) ==> ordinary && finalizer,
        actual != force_abort_reason && cancellation != Some(actual) ==> !ordinary && !finalizer,
        actual == force_abort_reason && cancellation != Some(actual) ==> (ordinary <==> first
            == Some(FirstForceAbortPhase::Ordinary)) && (finalizer <==> force_abort),
        first != Some(FirstForceAbortPhase::Ordinary) ==> agrees,
        first == Some(FirstForceAbortPhase::Ordinary) ==> (agrees <==> cancellation == Some(
            force_abort_reason,
        )),
{
}

/// The part of a run that a force abort met first is that of the record it is taken from.
pub proof fn law_met_phases_are_kept()
    ensures
        <FirstForceAbortPhase as vstd::std_specs::convert::FromSpec<
            ForceAbortPhaseV1,
        >>::from_spec(ForceAbortPhaseV1::Ordinary) == FirstForceAbortPhase::Ordinary,
        <FirstForceAbortPhase as vstd::std_specs::convert::FromSpec<
            ForceAbortPhaseV1,
        >>::from_spec(ForceAbortPhaseV1::Finalization) == FirstForceAbortPhase::Finalization,
        <FirstForceAbortPhase as vstd::std_specs::convert::FromSpec<
            RunCancellationPhase,
        >>::from_spec(RunCancellationPhase::Ordinary) == FirstForceAbortPhase::Ordinary,
        <FirstForceAbortPhase as vstd::std_specs::convert::FromSpec<
            RunCancellationPhase,
        >>::from_spec(RunCancellationPhase::Finalization) == FirstForceAbortPhase::Finalization,
{
}

/// A workflow is served exactly if it has from one to 256 nodes, steps and finalizers
/// together, and then as it is.
pub proof fn law_served_workflows_have_some_nodes(
    workflow: WorkflowDefinition,
    outcome: Result<WorkflowDefinition, ServeWorkflowContractFailure>,
)
    requires
        call_ensures(require_serve_workflow, (workflow,), outcome),
    ensures
        outcome is Ok <==> 1 <= workflow.steps@.len() + workflow.finalizers@.len() <= 256,
        outcome matches Ok(served) ==> served == workflow,
        outcome matches Err(refusal) ==> refusal.reason()
            == ServeWorkflowContractFailureKind::InvalidNodeCount,
{
}

/// The names that documents, contexts and evidence use.
pub proof fn law_names()
    ensures
        FinalizationTrigger::Succeeded.name() == "succeeded"@,
        FinalizationTrigger::Failed.name() == "failed"@,
        FinalizationTrigger::Cancelled.name() == "cancelled"@,
        FailurePolicy::Required.name() == "required"@,
        FailurePolicy::Advisory.name() == "advisory"@,
        OrdinaryIssueDisposition::Failed.name() == "failed"@,
        OrdinaryIssueDisposition::Blocked.name() == "blocked"@,
        FailurePhase::Start.name() == "start"@,
        FailurePhase::Execution.name() == "execution"@,
        FailurePhase::OutputCapture.name() == "output_capture"@,
        EvidenceError::InvalidFailureCause.text()
            == "invalid workflow node evidence: InvalidFailureCause"@,
        EvidenceError::InvalidFailureDetail.text()
            == "invalid workflow node evidence: InvalidFailureDetail"@,
        EvidenceError::InvalidPrerequisite.text()
            == "invalid workflow node evidence: InvalidPrerequisite"@,
        EvidenceError::InvalidPrerequisiteCount.text()
            == "invalid workflow node evidence: InvalidPrerequisiteCount"@,
        EvidenceError::NodeRoleMismatch.text()
            == "invalid workflow node evidence: NodeRoleMismatch"@,
{
}

/// An issue is told with its step, the step's policy and how it ended, in this order.
pub proof fn law_issues_tell_step_policy_and_disposition(step: Seq<char>)
    ensures
        issue_text(step, FailurePolicy::Required, OrdinaryIssueDisposition::Failed)
            == "{\"stepId\":"@ + step + ",\"failurePolicy\":\""@ + "required"@
            + "\",\"disposition\":\""@ + "failed"@ + "\"}"@,
        issue_text(step, FailurePolicy::Required, OrdinaryIssueDisposition::Blocked)
            == "{\"stepId\":"@ + step + ",\"failurePolicy\":\""@ + "required"@
            + "\",\"disposition\":\""@ + "blocked"@ + "\"}"@,
        issue_text(step, FailurePolicy::Advisory, OrdinaryIssueDisposition::Failed)
            == "{\"stepId\":"@ + step + ",\"failurePolicy\":\""@ + "advisory"@
            + "\",\"disposition\":\""@ + "failed"@ + "\"}"@,
        issue_text(step, FailurePolicy::Advisory, OrdinaryIssueDisposition::Blocked)
            == "{\"stepId\":"@ + step + ",\"failurePolicy\":\""@ + "advisory"@
            + "\",\"disposition\":\""@ + "blocked"@ + "\"}"@,
{
}

/// Issues are told one behind the other, with a comma between two of them.
pub proof fn law_issues_are_told_one_by_one(
    issues: Seq<(Seq<char>, FailurePolicy, OrdinaryIssueDisposition)>,
    count: nat,
)
    requires
        count < issues.len(),
    ensures
        issues_text(issues, 0) == Seq::<char>::empty(),
        issues_text(issues, count + 1) == (if count == 0 {
            issue_text(issues[0].0, issues[0].1, issues[0].2)
        } else {
            issues_text(issues, count) + ","@ + issue_text(
                issues[count as int].0,
                issues[count as int].1,
                issues[count as int].2,
            )
        }),
{
    reveal_with_fuel(issues_text, 2);
    if count == 0 {
        assert(issues_text(issues, 1) =~= issue_text(issues[0].0, issues[0].1, issues[0].2));
    }
}

/// A context tells its trigger, the step of its first issue, the reason of its cancellation
/// and its issues, in this order; what is not there is `null`.
pub proof fn law_contexts_tell_how_a_run_came_to_its_end(
    trigger: FinalizationTrigger,
    step: Seq<char>,
    reason: Seq<char>,
    issues: Seq<(Seq<char>, FailurePolicy, OrdinaryIssueDisposition)>,
)
    ensures
        ({
            let start = "{\"schemaVersion\":1,\"trigger\":\""@ + trigger.name()
                + "\",\"primaryIssueStepId\":"@;
            let end = ",\"ordinaryIssues\":["@ + issues_text(issues, issues.len()) + "]}"@;
            let middle = ",\"cancellationReason\":"@;
            &&& context_text(trigger, None, None, issues) == start + "null"@ + middle + "null"@
                + end
            &&& context_text(trigger, Some(step), None, issues) == start + step + middle + "null"@
                + end
            &&& context_text(trigger, None, Some(reason), issues) == start + "null"@ + middle
                + reason + end
            &&& context_text(trigger, Some(step), Some(reason), issues) == start + step + middle
                + reason + end
        }),
{
    let start = "{\"schemaVersion\":1,\"trigger\":\""@ + trigger.name()
        + "\",\"primaryIssueStepId\":"@;
    let end = ",\"ordinaryIssues\":["@ + issues_text(issues, issues.len()) + "]}"@;
    let middle = ",\"cancellationReason\":"@;
    assert(context_text(trigger, None, None, issues) =~= start + "null"@ + middle + "null"@ + end);
    assert(context_text(trigger, Some(step), None, issues) =~= start + step + middle + "null"@
        + end);
    assert(context_text(trigger, None, Some(reason), issues) =~= start + "null"@ + middle + reason
        + end);
    assert(context_text(trigger, Some(step), Some(reason), issues) =~= start + step + middle
        + reason + end);
}

/// A context that is serialized is told with its own trigger, issue, reason and issues, all
/// names quoted, the issues in their order.
pub proof fn law_contexts_are_serialized_with_their_parts(context: FinalizationContext<'_>)
    ensures
        ({
            let issues = ordered_issues(
                context.ordinary_issues@.map_values(|issue: OrdinaryIssue| issue@),
            );
            serialized_context(context) == context_text(
                context.trigger,
                match context.primary_issue_step_id {
                    Some(step) => Some(json_quoted(step@)),
                    None => None,
                },
                match context.cancellation_reason {
                    Some(reason) => Some(json_quoted(reason@)),
                    None => None,
                },
                issues.map_values(
                    |issue: IssueModel|
                        (json_quoted(issue.step_id), issue.failure_policy, issue.disposition),
                ),
            )
        }),
{
    let models = context.ordinary_issues@.map_values(|issue: OrdinaryIssue| issue@);
    let issues = ordered_issues(models);
    assert(crate::finalization_context::issue_models(context.ordinary_issues@) =~= models);
    assert(crate::finalization_context::quoted_issues(issues) =~= issues.map_values(
        |issue: IssueModel| (json_quoted(issue.step_id), issue.failure_policy, issue.disposition),
    ));
}

/// An issue is told by its step, its policy and how it ended.
pub proof fn law_issues_are_modelled_faithfully(issue: OrdinaryIssue)
    ensures
        issue@.step_id == issue.step_id@,
        issue@.failure_policy == issue.failure_policy,
        issue@.disposition == issue.disposition,
{
}

/// An issue is put behind all that it does not stand before: those of the same name stay in
/// their order.
pub proof fn law_issues_of_one_name_stay_in_order(ordered: Seq<IssueModel>, issue: IssueModel)
    ensures
        ordered.len() == 0 || !issue_before(issue, ordered.last()) ==> insert_issue(ordered, issue)
            == ordered.push(issue),
        ordered.len() > 0 && issue_before(issue, ordered.last()) ==> insert_issue(
            ordered,
            issue,
        ).last() == ordered.last() && insert_issue(ordered, issue).drop_last() == insert_issue(
            ordered.drop_last(),
            issue,
        ),
{
    if ordered.len() > 0 && issue_before(issue, ordered.last()) {
        assert(insert_issue(ordered, issue).drop_last() =~= insert_issue(
            ordered.drop_last(),
            issue,
        ));
    }
}

/// Bytes that were not kept are told exactly where there are any.
pub proof fn law_only_lost_bytes_are_told(discarded: u64)
    ensures
        discarded == 0 ==> reported(discarded) is None,
        discarded > 0 ==> reported(discarded) == Some(discarded),
{
}

/// Of further bytes as many are kept as there is room for, the first ones first; the others
/// are counted, up to the largest number.
pub proof fn law_captures_fill_their_room(capture: CaptureModel, bytes: Seq<u8>)
    requires
        capture.retained.len() <= capture.maximum,
    ensures
        ({
            let after = captured(capture, bytes);
            let room = capture.maximum - capture.retained.len();
            let kept = if bytes.len() <= room {
                bytes.len() as int
            } else {
                room
            };
            &&& admitted(capture, bytes.len()) == kept
            &&& after.maximum == capture.maximum
            &&& after.retained == capture.retained + bytes.take(kept)
            &&& capture.discarded + (bytes.len() - kept) <= u64::MAX ==> after.discarded
                == capture.discarded + (bytes.len() - kept)
            &&& capture.discarded + (bytes.len() - kept) > u64::MAX ==> after.discarded == u64::MAX
        }),
{
}

/// The line on a process that could not be started tells what kind of error it was, its number
/// where it has one, with its sign, and what it says.
pub proof fn law_spawn_lines_tell_the_error(
    category: Seq<char>,
    number: i32,
    message: Seq<char>,
)
    ensures
        ({
            let start =
                "{\"schemaVersion\":1,\"stage\":\"process_spawn\",\"errorCategory\":"@
                + category + ",\"rawOsError\":"@;
            let end = ",\"message\":"@ + message + "}\n"@;
            &&& spawn_line(category, None, message) == start + "null"@ + end
            &&& number >= 0 ==> spawn_line(category, Some(number), message) == start + decimal_text(
                number as nat,
            ) + end
            &&& number < 0 ==> spawn_line(category, Some(number), message) == start + ("-"@
                + decimal_text((-(number as int)) as nat)) + end
        }),
{
    let start = "{\"schemaVersion\":1,\"stage\":\"process_spawn\",\"errorCategory\":"@
        + category + ",\"rawOsError\":"@;
    let end = ",\"message\":"@ + message + "}\n"@;
    assert(spawn_line(category, None, message) =~= start + "null"@ + end);
    assert(spawn_line(category, Some(number), message) =~= start + raw_error_text(Some(number))
        + end);
}

/// A process that could not be started left nothing on its output and its line on its error,
/// cut where it is too long; both were read to their ends.
pub proof fn law_failed_spawns_leave_their_line(
    diagnostic: StepDiagnostic,
    maximum: u64,
    line: Seq<u8>,
)
    requires
        spawn_failure_kept(diagnostic, maximum, line),
        line.len() <= u64::MAX,
    ensures
        diagnostic.output()@.bytes.len() == 0 && diagnostic.output()@.discarded is None,
        diagnostic.output()@.fully_drained && diagnostic.error()@.fully_drained,
        line.len() <= maximum ==> diagnostic.error()@.bytes == line && diagnostic.error()@.discarded
            is None,
        line.len() > maximum ==> diagnostic.error()@.bytes == line.take(maximum as int)
            && diagnostic.error()@.discarded == Some((line.len() - maximum) as u64),
{
    let begun = CaptureModel { maximum: maximum as nat, retained: Seq::empty(), discarded: 0 };
    law_captures_fill_their_room(begun, line);
    assert(Seq::<u8>::empty() + line.take(line.len() as int) =~= line);
    if line.len() > maximum {
        assert(Seq::<u8>::empty() + line.take(maximum as int) =~= line.take(maximum as int));
    }
}

/// Texts are those of their strings, in their order.
pub proof fn law_texts_are_those_of_their_strings(strings: Seq<String>, index: int)
    requires
        0 <= index < strings.len(),
    ensures
        texts(strings).len() == strings.len(),
        texts(strings)[index] == strings[index]@,
{
}

/// Values are found under their names: each entry of distinct names gives its own value, and
/// nothing else is found.
pub proof fn law_values_are_found_by_name<V>(entries: Seq<(String, V)>, index: int, name: Seq<char>)
    requires
        0 <= index < entries.len(),
        forall|i: int, j: int|
            0 <= i < j < entries.len() ==> (#[trigger] entries[i]).0@ != (#[trigger] entries[j]).0@,
    ensures
        values_by_name(entries).dom().contains(entries[index].0@),
        values_by_name(entries)[entries[index].0@] == entries[index].1,
        values_by_name(entries).dom().contains(name) <==> exists|i: int|
            0 <= i < entries.len() && (#[trigger] entries[i]).0@ == name,
        entry_names(entries)[index] == entries[index].0@ && entry_names(entries).len()
            == entries.len(),
{
    let found = name_index(entries, entries[index].0@);
    assert(is_named(entries[index], entries[index].0@));
    assert(is_named(entries[found], entries[index].0@));
    if found != index {
        assert(entries[found].0@ == entries[index].0@);
    }
    if exists|i: int| 0 <= i < entries.len() && (#[trigger] entries[i]).0@ == name {
        let i = choose|i: int| 0 <= i < entries.len() && (#[trigger] entries[i]).0@ == name;
        assert(is_named(entries[i], name));
    }
    if has_name(entries, name) {
        let i = name_index(entries, name);
        assert(is_named(entries[i], name));
    }
}

/// Names stand in the order of their bytes.
pub proof fn law_names_stand_by_their_bytes(left: Seq<char>, right: Seq<char>)
    ensures
        name_before(left, right) <==> bytes_before(encode_utf8(left), encode_utf8(right)),
{
}

/// What is kept of steps is found by step and invocation: each entry of distinct invocations
/// gives its own diagnostic, and nothing else is found.
pub proof fn law_diagnostics_are_found_by_invocation(
    entries: Seq<RecordedDiagnostic>,
    index: int,
    step: Seq<char>,
    invocation: ActionId,
)
    requires
        0 <= index < entries.len(),
        forall|i: int, j: int|
            0 <= i < j < entries.len() ==> !((#[trigger] entries[i]).step@ == (
            #[trigger] entries[j]).step@ && entries[i].invocation == entries[j].invocation),
    ensures
        by_invocation(entries).dom().contains((entries[index].step@, entries[index].invocation)),
        by_invocation(entries)[(entries[index].step@, entries[index].invocation)]
            == entries[index].diagnostic,
        by_invocation(entries).dom().contains((step, invocation)) <==> exists|i: int|
            0 <= i < entries.len() && (#[trigger] entries[i]).step@ == step && entries[i].invocation
                == invocation,
{
    let key = (entries[index].step@, entries[index].invocation);
    let found = entry_index(entries, key);
    assert(keyed(entries[index], key));
    assert(keyed(entries[found], key));
    if found != index {
        assert(entries[found].step@ == entries[index].step@);
    }
    if exists|i: int|
        0 <= i < entries.len() && (#[trigger] entries[i]).step@ == step && entries[i].invocation
            == invocation {
        let i = choose|i: int|
            0 <= i < entries.len() && (#[trigger] entries[i]).step@ == step && entries[i].invocation
                == invocation;
        assert(keyed(entries[i], (step, invocation)));
    }
    if recorded(entries, (step, invocation)) {
        let i = entry_index(entries, (step, invocation));
        assert(keyed(entries[i], (step, invocation)));
    }
}

} // verus!

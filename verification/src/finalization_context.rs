//! The context that finalizers are given: how the run came to them.

use vstd::prelude::*;
use vstd::utf8::encode_utf8;

use crate::bytes::{bytes_before, copy_bytes, law_byte_order_is_total, stands_before};
use crate::document::{FailurePolicy, FinalizationTrigger};
use crate::json_text::{json_quoted, quote_json};
use crate::text::push_text;

verus! {

/// How an ordinary step that did not succeed ended.
#[derive(Clone, Copy, Debug, PartialEq, Eq, Structural)]
pub enum OrdinaryIssueDisposition {
    Failed,
    Blocked,
}

impl OrdinaryIssueDisposition {
    /// The name of the disposition in contexts.
    pub open spec fn name(self) -> Seq<char> {
        match self {
            OrdinaryIssueDisposition::Failed => "failed"@,
            OrdinaryIssueDisposition::Blocked => "blocked"@,
        }
    }

    /// The name of the disposition in contexts.
    pub fn as_str(self) -> (name: &'static str)
        ensures
            name@ == self.name(),
    {
        match self {
            OrdinaryIssueDisposition::Failed => "failed",
            OrdinaryIssueDisposition::Blocked => "blocked",
        }
    }
}

/// An ordinary step that did not succeed.
#[derive(Debug, PartialEq, Eq)]
pub struct OrdinaryIssue {
    pub step_id: String,
    pub failure_policy: FailurePolicy,
    pub disposition: OrdinaryIssueDisposition,
}

/// An ordinary step that did not succeed, by the text that names it.
pub struct IssueModel {
    pub step_id: Seq<char>,
    pub failure_policy: FailurePolicy,
    pub disposition: OrdinaryIssueDisposition,
}

impl View for OrdinaryIssue {
    type V = IssueModel;

    open spec fn view(&self) -> IssueModel {
        IssueModel {
            step_id: self.step_id@,
            failure_policy: self.failure_policy,
            disposition: self.disposition,
        }
    }
}

/// How a run came to its finalizers.
pub struct FinalizationContext<'a> {
    pub trigger: FinalizationTrigger,
    pub primary_issue_step_id: Option<&'a str>,
    pub cancellation_reason: Option<&'a str>,
    pub ordinary_issues: &'a [OrdinaryIssue],
}

/// The models of issues.
pub open spec fn issue_models(issues: Seq<OrdinaryIssue>) -> Seq<IssueModel> {
    issues.map_values(|issue: OrdinaryIssue| issue@)
}

/// Whether an issue stands before another: by the bytes of the step's name.
pub open spec fn issue_before(left: IssueModel, right: IssueModel) -> bool {
    bytes_before(encode_utf8(left.step_id), encode_utf8(right.step_id))
}

/// Puts an issue behind those that it does not stand before.
pub open spec fn insert_issue(ordered: Seq<IssueModel>, issue: IssueModel) -> Seq<IssueModel>
    decreases ordered.len(),
{
    if ordered.len() > 0 && issue_before(issue, ordered.last()) {
        insert_issue(ordered.drop_last(), issue).push(ordered.last())
    } else {
        ordered.push(issue)
    }
}

/// Issues by name; those of the same name stay in their order.
pub open spec fn ordered_issues(issues: Seq<IssueModel>) -> Seq<IssueModel>
    decreases issues.len(),
{
    if issues.len() == 0 {
        Seq::empty()
    } else {
        insert_issue(ordered_issues(issues.drop_last()), issues.last())
    }
}

/// An issue as JSON, its step's name already quoted.
pub open spec fn issue_text(
    quoted: Seq<char>,
    policy: FailurePolicy,
    disposition: OrdinaryIssueDisposition,
) -> Seq<char> {
    "{\"stepId\":"@ + quoted + ",\"failurePolicy\":\""@ + policy.name() + "\",\"disposition\":\""@
        + disposition.name() + "\"}"@
}

/// The first `count` issues as the elements of a JSON array.
pub open spec fn issues_text(
    issues: Seq<(Seq<char>, FailurePolicy, OrdinaryIssueDisposition)>,
    count: nat,
) -> Seq<char>
    decreases count,
{
    if count == 0 {
        Seq::empty()
    } else {
        let (quoted, policy, disposition) = issues[count - 1];
        let earlier = issues_text(issues, (count - 1) as nat);
        (if count == 1 {
            earlier
        } else {
            earlier + ","@
        }) + issue_text(quoted, policy, disposition)
    }
}

/// A quoted text, or `null`.
pub open spec fn optional_json(quoted: Option<Seq<char>>) -> Seq<char> {
    match quoted {
        Some(quoted) => quoted,
        None => "null"@,
    }
}

/// A context as JSON, every text in it already quoted.
pub open spec fn context_text(
    trigger: FinalizationTrigger,
    primary: Option<Seq<char>>,
    reason: Option<Seq<char>>,
    issues: Seq<(Seq<char>, FailurePolicy, OrdinaryIssueDisposition)>,
) -> Seq<char> {
    "{\"schemaVersion\":1,\"trigger\":\""@ + trigger.name() + "\",\"primaryIssueStepId\":"@
        + optional_json(primary) + ",\"cancellationReason\":"@ + optional_json(reason)
        + ",\"ordinaryIssues\":["@ + issues_text(issues, issues.len()) + "]}"@
}

/// The parts of an issue that its JSON shows, its step's name quoted.
pub open spec fn quoted_issue(issue: IssueModel) -> (
    Seq<char>,
    FailurePolicy,
    OrdinaryIssueDisposition,
) {
    (json_quoted(issue.step_id), issue.failure_policy, issue.disposition)
}

/// The parts of issues that their JSON shows.
pub open spec fn quoted_issues(issues: Seq<IssueModel>) -> Seq<
    (Seq<char>, FailurePolicy, OrdinaryIssueDisposition),
> {
    issues.map_values(|issue: IssueModel| quoted_issue(issue))
}

/// The JSON string of a text that may be there.
pub open spec fn optional_quoted(text: Option<&str>) -> Option<Seq<char>> {
    match text {
        Some(text) => Some(json_quoted(text@)),
        None => None,
    }
}

/// A context as JSON.
pub open spec fn serialized_context(context: FinalizationContext<'_>) -> Seq<char> {
    context_text(
        context.trigger,
        optional_quoted(context.primary_issue_step_id),
        optional_quoted(context.cancellation_reason),
        quoted_issues(ordered_issues(issue_models(context.ordinary_issues@))),
    )
}

/// An issue whose step's name is quoted.
pub struct QuotedIssue {
    pub step_id: String,
    pub failure_policy: FailurePolicy,
    pub disposition: OrdinaryIssueDisposition,
}

/// The parts of quoted issues.
pub open spec fn issue_parts(issues: Seq<QuotedIssue>) -> Seq<
    (Seq<char>, FailurePolicy, OrdinaryIssueDisposition),
> {
    issues.map_values(
        |issue: QuotedIssue| (issue.step_id@, issue.failure_policy, issue.disposition),
    )
}

/// The text of a string that may be there.
pub open spec fn optional_string(string: Option<String>) -> Option<Seq<char>> {
    match string {
        Some(string) => Some(string@),
        None => None,
    }
}

fn push_optional(text: &mut String, quoted: &Option<String>)
    ensures
        final(text)@ == old(text)@ + optional_json(optional_string(*quoted)),
{
    match quoted {
        Some(quoted) => push_text(text, quoted.as_str()),
        None => push_text(text, "null"),
    }
}

/// Writes a context whose texts are quoted.
pub fn assemble_context(
    trigger: FinalizationTrigger,
    primary: &Option<String>,
    reason: &Option<String>,
    issues: &Vec<QuotedIssue>,
) -> (text: String)
    ensures
        text@ == context_text(
            trigger,
            optional_string(*primary),
            optional_string(*reason),
            issue_parts(issues@),
        ),
{
    let mut text: String = String::new();
    push_text(&mut text, "{\"schemaVersion\":1,\"trigger\":\"");
    push_text(&mut text, trigger.as_str());
    push_text(&mut text, "\",\"primaryIssueStepId\":");
    push_optional(&mut text, primary);
    push_text(&mut text, ",\"cancellationReason\":");
    push_optional(&mut text, reason);
    push_text(&mut text, ",\"ordinaryIssues\":[");
    let ghost start = text@;
    let ghost parts = issue_parts(issues@);
    let mut index: usize = 0;
    assert(start + issues_text(parts, 0) =~= start);
    while index < issues.len()
        invariant
            index <= issues@.len(),
            parts == issue_parts(issues@),
            text@ == start + issues_text(parts, index as nat),
        decreases issues@.len() - index,
    {
        let ghost before = issues_text(parts, index as nat);
        let issue: &QuotedIssue = &issues[index];
        if index > 0 {
            push_text(&mut text, ",");
        }
        push_text(&mut text, "{\"stepId\":");
        push_text(&mut text, issue.step_id.as_str());
        push_text(&mut text, ",\"failurePolicy\":\"");
        push_text(&mut text, issue.failure_policy.as_str());
        push_text(&mut text, "\",\"disposition\":\"");
        push_text(&mut text, issue.disposition.as_str());
        push_text(&mut text, "\"}");
        proof {
            assert(parts[index as int] == (
                issue.step_id@,
                issue.failure_policy,
                issue.disposition,
            ));
            assert(text@ =~= start + issues_text(parts, (index + 1) as nat));
        }
        index = index + 1;
    }
    push_text(&mut text, "]}");
    proof {
        assert(text@ =~= context_text(
            trigger,
            optional_string(*primary),
            optional_string(*reason),
            parts,
        ));
    }
    text
}

/// The models of references to issues.
spec fn referenced_models(issues: Seq<&OrdinaryIssue>) -> Seq<IssueModel> {
    issues.map_values(|issue: &OrdinaryIssue| issue@)
}

proof fn lemma_insert_issue(ordered: Seq<IssueModel>, issue: IssueModel, index: int)
    requires
        0 <= index <= ordered.len(),
        forall|i: int| index <= i < ordered.len() ==> issue_before(issue, #[trigger] ordered[i]),
        index > 0 ==> !issue_before(issue, ordered[index - 1]),
    ensures
        insert_issue(ordered, issue) == ordered.insert(index, issue),
    decreases ordered.len(),
{
    if index < ordered.len() {
        let shorter = ordered.drop_last();
        assert forall|i: int| index <= i < shorter.len() implies issue_before(
            issue,
            #[trigger] shorter[i],
        ) by {
            assert(issue_before(issue, ordered[i]));
        }
        lemma_insert_issue(shorter, issue, index);
        assert(issue_before(issue, ordered[ordered.len() - 1]));
        assert(shorter.insert(index, issue).push(ordered.last()) =~= ordered.insert(index, issue));
    } else {
        assert(ordered.push(issue) =~= ordered.insert(index, issue));
    }
}

/// Issues by name, those of the same name in their order.
fn order_issues<'a>(issues: &'a [OrdinaryIssue]) -> (ordered: Vec<&'a OrdinaryIssue>)
    ensures
        referenced_models(ordered@) == ordered_issues(issue_models(issues@)),
{
    let mut ordered: Vec<&'a OrdinaryIssue> = Vec::new();
    let mut index: usize = 0;
    assert(issue_models(issues@.take(0)) =~= Seq::empty());
    assert(referenced_models(ordered@) =~= Seq::empty());
    while index < issues.len()
        invariant
            index <= issues@.len(),
            referenced_models(ordered@) == ordered_issues(issue_models(issues@.take(index as int))),
        decreases issues@.len() - index,
    {
        let issue: &'a OrdinaryIssue = &issues[index];
        let ghost models = referenced_models(ordered@);
        let mut position: usize = ordered.len();
        while position > 0 && stands_before(
            issue.step_id.as_str().as_bytes(),
            ordered[position - 1].step_id.as_str().as_bytes(),
        )
            invariant
                position <= ordered@.len(),
                models == referenced_models(ordered@),
                forall|i: int|
                    position <= i < models.len() ==> issue_before(issue@, #[trigger] models[i]),
            ensures
                position <= ordered@.len(),
                forall|i: int|
                    position <= i < models.len() ==> issue_before(issue@, #[trigger] models[i]),
                position > 0 ==> !issue_before(issue@, models[position - 1]),
            decreases position,
        {
            position = position - 1;
        }
        proof {
            lemma_insert_issue(models, issue@, position as int);
        }
        ordered.insert(position, issue);
        proof {
            assert(referenced_models(ordered@) =~= models.insert(position as int, issue@));
            let known = issue_models(issues@.take(index + 1));
            assert(known.drop_last() =~= issue_models(issues@.take(index as int)));
            assert(known.last() == issue@);
        }
        index = index + 1;
    }
    assert(issues@.take(index as int) =~= issues@);
    ordered
}

fn quote_optional(text: Option<&str>) -> (quoted: Option<String>)
    ensures
        optional_string(quoted) == optional_quoted(text),
{
    match text {
        Some(text) => Some(quote_json(text)),
        None => None,
    }
}

/// Writes a context as JSON, its issues by name.
pub fn serialize(context: FinalizationContext<'_>) -> (bytes: Vec<u8>)
    ensures
        bytes@ == encode_utf8(serialized_context(context)),
{
    let ordered: Vec<&OrdinaryIssue> = order_issues(context.ordinary_issues);
    let mut quoted: Vec<QuotedIssue> = Vec::new();
    let mut index: usize = 0;
    assert(issue_parts(quoted@) =~= Seq::empty());
    while index < ordered.len()
        invariant
            index <= ordered@.len(),
            issue_parts(quoted@) == quoted_issues(referenced_models(ordered@.take(index as int))),
        decreases ordered@.len() - index,
    {
        let ghost before = quoted@;
        let issue: &OrdinaryIssue = ordered[index];
        quoted.push(
            QuotedIssue {
                step_id: quote_json(issue.step_id.as_str()),
                failure_policy: issue.failure_policy,
                disposition: issue.disposition,
            },
        );
        proof {
            let models = referenced_models(ordered@.take(index as int));
            assert(referenced_models(ordered@.take(index + 1)) =~= models.push(issue@));
            assert(quoted_issues(models.push(issue@)) =~= quoted_issues(models).push(
                quoted_issue(issue@),
            ));
            assert(issue_parts(quoted@) =~= issue_parts(before).push(quoted_issue(issue@)));
        }
        index = index + 1;
    }
    assert(ordered@.take(index as int) =~= ordered@);
    let text: String = assemble_context(
        context.trigger,
        &quote_optional(context.primary_issue_step_id),
        &quote_optional(context.cancellation_reason),
        &quoted,
    );
    copy_bytes(text.as_str().as_bytes())
}

proof fn lemma_insert_keeps_order(ordered: Seq<IssueModel>, issue: IssueModel)
    requires
        forall|i: int, j: int|
            0 <= i < j < ordered.len() ==> !issue_before(
                #[trigger] ordered[j],
                #[trigger] ordered[i],
            ),
    ensures
        ({
            let after = insert_issue(ordered, issue);
            &&& after.len() == ordered.len() + 1
            &&& after.to_multiset() == ordered.to_multiset().insert(issue)
            &&& forall|i: int, j: int|
                0 <= i < j < after.len() ==> !issue_before(#[trigger] after[j], #[trigger] after[i])
            &&& forall|i: int|
                0 <= i < after.len() ==> #[trigger] after[i] == issue || ordered.contains(after[i])
        }),
    decreases ordered.len(),
{
    broadcast use vstd::seq_lib::group_to_multiset_ensures;

    let after = insert_issue(ordered, issue);
    if ordered.len() > 0 && issue_before(issue, ordered.last()) {
        let shorter = ordered.drop_last();
        assert forall|i: int, j: int| 0 <= i < j < shorter.len() implies !issue_before(
            #[trigger] shorter[j],
            #[trigger] shorter[i],
        ) by {
            assert(!issue_before(ordered[j], ordered[i]));
        }
        lemma_insert_keeps_order(shorter, issue);
        let inner = insert_issue(shorter, issue);
        assert(ordered =~= shorter.push(ordered.last()));
        assert(after.to_multiset() =~= ordered.to_multiset().insert(issue));
        assert forall|i: int, j: int| 0 <= i < j < after.len() implies !issue_before(
            #[trigger] after[j],
            #[trigger] after[i],
        ) by {
            if j == after.len() - 1 {
                assert(after[i] == inner[i]);
                if inner[i] == issue {
                    law_byte_order_is_total(
                        encode_utf8(issue.step_id),
                        encode_utf8(ordered.last().step_id),
                        encode_utf8(issue.step_id),
                    );
                } else {
                    let k = choose|k: int| 0 <= k < shorter.len() && shorter[k] == inner[i];
                    assert(!issue_before(ordered[ordered.len() - 1], ordered[k]));
                }
            } else {
                assert(after[i] == inner[i] && after[j] == inner[j]);
            }
        }
        assert forall|i: int| 0 <= i < after.len() implies (#[trigger] after[i] == issue
            || ordered.contains(after[i])) by {
            if i < inner.len() {
                assert(after[i] == inner[i]);
                if inner[i] != issue {
                    let k = choose|k: int| 0 <= k < shorter.len() && shorter[k] == inner[i];
                    assert(ordered[k] == inner[i]);
                }
            } else {
                assert(ordered[ordered.len() - 1] == after[i]);
            }
        }
    } else {
        assert forall|i: int, j: int| 0 <= i < j < after.len() implies !issue_before(
            #[trigger] after[j],
            #[trigger] after[i],
        ) by {
            if j == ordered.len() {
                if i < ordered.len() - 1 {
                    assert(!issue_before(ordered[ordered.len() - 1], ordered[i]));
                    law_byte_order_is_total(
                        encode_utf8(issue.step_id),
                        encode_utf8(ordered[i].step_id),
                        encode_utf8(ordered.last().step_id),
                    );
                    law_byte_order_is_total(
                        encode_utf8(ordered[i].step_id),
                        encode_utf8(ordered.last().step_id),
                        encode_utf8(issue.step_id),
                    );
                }
            } else {
                assert(!issue_before(ordered[j], ordered[i]));
            }
        }
        assert forall|i: int| 0 <= i < after.len() implies (#[trigger] after[i] == issue
            || ordered.contains(after[i])) by {
            if i < ordered.len() {
                assert(ordered[i] == after[i]);
            }
        }
    }
}

/// A context lists every issue that it was given, as often as it was given, by
/// the bytes of the step's name.
pub proof fn law_issues_are_ordered(issues: Seq<IssueModel>)
    ensures
        ordered_issues(issues).to_multiset() == issues.to_multiset(),
        forall|i: int, j: int|
            0 <= i < j < ordered_issues(issues).len() ==> !issue_before(
                #[trigger] ordered_issues(issues)[j],
                #[trigger] ordered_issues(issues)[i],
            ),
    decreases issues.len(),
{
    broadcast use vstd::seq_lib::group_to_multiset_ensures;

    if issues.len() == 0 {
        assert(issues =~= Seq::empty());
    } else {
        law_issues_are_ordered(issues.drop_last());
        lemma_insert_keeps_order(ordered_issues(issues.drop_last()), issues.last());
        assert(issues =~= issues.drop_last().push(issues.last()));
    }
}

} // verus!

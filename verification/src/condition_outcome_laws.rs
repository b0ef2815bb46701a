//! What the predicates of a condition come to, and what evaluating them reads and tells.

use vstd::prelude::*;

use crate::condition::{
    child_path, condition_outcome, evaluation, inputs_equal, operand_input, ConditionEvaluation,
    ConditionInput, ConditionValueKind, DispositionMap, EvaluationLog, EvaluationModel,
    FailureModel, InputMap, ResolvedOperand, ResolvedPredicate, ResolvedSelector,
    TerminalDisposition, UnavailableConditionInput, WorkflowNode,
};
use crate::condition_laws::{first_decision, law_connectives, verdict};
use crate::json::json_equal;
use crate::pointer::selected;
use crate::text::decimal_text;

verus! {

/// A disposition holds exactly of a node that ended just that way: of the ways to end, one
/// holds and all others are false. Of a node that has not ended nothing can be said.
pub proof fn law_dispositions_hold_as_recorded(
    node: WorkflowNode,
    is: TerminalDisposition,
    values: InputMap,
    dispositions: DispositionMap,
)
    ensures
        ({
            let outcome = condition_outcome(
                ResolvedPredicate::Disposition { node, is },
                values,
                dispositions,
            );
            &&& outcome == EvaluationModel::Passed <==> dispositions.contains_key(node@) && is
                == dispositions[node@]
            &&& outcome == EvaluationModel::False(seq![(Seq::<char>::empty(), false)])
                <==> dispositions.contains_key(node@) && is != dispositions[node@]
            &&& outcome == EvaluationModel::DispositionUnavailable(node@)
                <==> !dispositions.contains_key(node@)
        }),
{
    let trace = Seq::<(Seq<char>, bool)>::empty().push((Seq::<char>::empty(), false));
    assert(trace =~= seq![(Seq::<char>::empty(), false)]);
}

/// A node is found again by its identifier and its role, and by nothing else.
pub proof fn law_nodes_are_their_identifier_and_role(left: WorkflowNode, right: WorkflowNode)
    ensures
        left@ == right@ <==> left.id@ == right.id@ && left.role == right.role,
{
}

/// An operand that gives its value is that value. One that reads a reference is what was
/// captured under it, if that is of the operand's kind: the text, or the JSON value, or the
/// part of it that the pointer selects. Nothing captured, or something of another kind, is
/// no value; a part that is not there is told with its reference and pointer.
pub proof fn law_operands_are_given_or_captured(operand: ResolvedOperand, values: InputMap)
    ensures
        operand.literal() matches Some(given) ==> operand_input(operand, values) == Ok::<
            ConditionInput,
            FailureModel,
        >(given),
        operand.literal() is None ==> (operand.reference() matches Some(name) ==> {
            let input = operand_input(operand, values);
            let captured = values[name];
            &&& !values.contains_key(name) || (captured is Text) != (operand.value_kind()
                == ConditionValueKind::Text) ==> input == Err::<ConditionInput, FailureModel>(
                FailureModel::ValueUnavailable(name),
            )
            &&& values.contains_key(name) && operand.value_kind() == ConditionValueKind::Text ==> (
            captured matches ConditionInput::Text(text) ==> input == Ok::<
                ConditionInput,
                FailureModel,
            >(ConditionInput::Text(text)))
            &&& values.contains_key(name) && operand.value_kind() == ConditionValueKind::Json ==> (
            captured matches ConditionInput::Json(value) ==> match operand.reference_pointer() {
                None => input == Ok::<ConditionInput, FailureModel>(ConditionInput::Json(value)),
                Some(pointer) => match selected(value, pointer.path()) {
                    Some(part) => input == Ok::<ConditionInput, FailureModel>(
                        ConditionInput::Json(part),
                    ),
                    None => input == Err::<ConditionInput, FailureModel>(
                        FailureModel::PointerMissing(name, pointer.source()),
                    ),
                },
            })
        }),
{
}

/// Two texts are equal exactly if they are the same text, two JSON values exactly if they
/// are the same JSON value, and a text never equals a JSON value.
pub proof fn law_inputs_are_equal_within_their_kind(left: ConditionInput, right: ConditionInput)
    ensures
        left is Text != right is Text ==> !inputs_equal(left, right),
        left is Text && right is Text ==> (inputs_equal(left, right) <==> left->Text_0
            == right->Text_0),
        left is Json && right is Json ==> (inputs_equal(left, right) <==> json_equal(
            left->Json_0,
            right->Json_0,
        )),
{
}

/// An equality passes exactly if both of its operands have values and these are equal; it is
/// false exactly if they have values that are not. The first operand without a value is what
/// the condition tells.
pub proof fn law_equalities_compare_their_operands(
    operands: [ResolvedOperand; 2],
    values: InputMap,
    dispositions: DispositionMap,
)
    ensures
        ({
            let outcome = condition_outcome(
                ResolvedPredicate::Equals(operands),
                values,
                dispositions,
            );
            let left = operand_input(operands@[0], values);
            let right = operand_input(operands@[1], values);
            &&& outcome == EvaluationModel::Passed <==> left is Ok && right is Ok && inputs_equal(
                left->Ok_0,
                right->Ok_0,
            )
            &&& outcome == EvaluationModel::False(seq![(Seq::<char>::empty(), false)]) <==> left
                is Ok && right is Ok && !inputs_equal(left->Ok_0, right->Ok_0)
            &&& left matches Err(failure) ==> told_failure(outcome) == Some(failure)
            &&& left is Ok ==> (right matches Err(failure) ==> told_failure(outcome) == Some(
                failure,
            ))
        }),
{
    let trace = Seq::<(Seq<char>, bool)>::empty().push((Seq::<char>::empty(), false));
    assert(trace =~= seq![(Seq::<char>::empty(), false)]);
}

/// Why a condition has no result, as its outcome tells it.
pub open spec fn told_failure(outcome: EvaluationModel) -> Option<FailureModel> {
    match outcome {
        EvaluationModel::Failed(name, pointer) => Some(FailureModel::PointerMissing(name, pointer)),
        EvaluationModel::ValueUnavailable(name) => Some(FailureModel::ValueUnavailable(name)),
        EvaluationModel::DispositionUnavailable(node) => Some(
            FailureModel::DispositionUnavailable(node),
        ),
        _ => None,
    }
}

/// An existence passes exactly if a JSON value was captured in which the pointer selects
/// something, and is false exactly if one was captured in which it selects nothing. Without
/// one the reference is told.
pub proof fn law_existences_look_for_a_part(
    selector: ResolvedSelector,
    values: InputMap,
    dispositions: DispositionMap,
)
    ensures
        ({
            let outcome = condition_outcome(
                ResolvedPredicate::Exists(selector),
                values,
                dispositions,
            );
            let name = selector.reference();
            let captured = values.contains_key(name) && values[name] is Json;
            let found = selected(values[name]->Json_0, selector.target().path()) is Some;
            &&& outcome == EvaluationModel::Passed <==> captured && found
            &&& outcome == EvaluationModel::False(seq![(Seq::<char>::empty(), false)])
                <==> captured && !found
            &&& outcome == EvaluationModel::ValueUnavailable(name) <==> !captured
        }),
{
    let trace = Seq::<(Seq<char>, bool)>::empty().push((Seq::<char>::empty(), false));
    assert(trace =~= seq![(Seq::<char>::empty(), false)]);
}

/// An equality reads the reference of its first operand, then that of its second unless the
/// first has no value; an existence reads its reference; a disposition reads none.
pub proof fn law_predicates_read_their_references(
    operands: [ResolvedOperand; 2],
    selector: ResolvedSelector,
    node: WorkflowNode,
    is: TerminalDisposition,
    path: Seq<char>,
    values: InputMap,
    dispositions: DispositionMap,
    log: EvaluationLog,
)
    ensures
        evaluation(
            ResolvedPredicate::Exists(selector),
            path,
            values,
            dispositions,
            log,
        ).1.accesses == log.accesses.push(selector.reference()),
        evaluation(
            ResolvedPredicate::Disposition { node, is },
            path,
            values,
            dispositions,
            log,
        ).1.accesses == log.accesses,
        ({
            let read = evaluation(
                ResolvedPredicate::Equals(operands),
                path,
                values,
                dispositions,
                log,
            ).1.accesses;
            let first = match operands@[0].reference() {
                Some(name) => log.accesses.push(name),
                None => log.accesses,
            };
            read == (if operand_input(operands@[0], values) is Err {
                first
            } else {
                match operands@[1].reference() {
                    Some(name) => first.push(name),
                    None => first,
                }
            })
        }),
{
}

/// A predicate that has a result tells it under its own path, last; one without a result
/// tells nothing of itself.
pub proof fn law_leaves_tell_their_result(
    predicate: ResolvedPredicate,
    path: Seq<char>,
    values: InputMap,
    dispositions: DispositionMap,
    log: EvaluationLog,
)
    requires
        predicate is Equals || predicate is Exists || predicate is Disposition,
    ensures
        ({
            let (result, after) = evaluation(predicate, path, values, dispositions, log);
            &&& result matches Ok(result) ==> after.trace == log.trace.push((path, result))
            &&& result is Err ==> after.trace == log.trace
        }),
{
}

/// A condition passes exactly if its predicate is true, and is false exactly if its
/// predicate is; the trace of a false one is all that was decided on the way, in order.
pub proof fn law_conditions_come_to_their_predicate(
    predicate: ResolvedPredicate,
    values: InputMap,
    dispositions: DispositionMap,
)
    ensures
        ({
            let (result, log) = evaluation(
                predicate,
                Seq::empty(),
                values,
                dispositions,
                EvaluationLog { trace: Seq::empty(), accesses: Seq::empty() },
            );
            let outcome = condition_outcome(predicate, values, dispositions);
            &&& outcome == EvaluationModel::Passed <==> result == Ok::<bool, FailureModel>(true)
            &&& outcome is False <==> result == Ok::<bool, FailureModel>(false)
            &&& outcome matches EvaluationModel::False(trace) ==> trace == log.trace
            &&& result matches Err(failure) ==> told_failure(outcome) == Some(failure)
        }),
{
}

/// The path of a child is that of its parent, the kind of the parent and the child's place
/// in decimal digits.
pub proof fn law_children_are_told_by_their_place(path: Seq<char>, index: nat)
    ensures
        child_path(path, true, index as int) == path + seq!['/', 'a', 'l', 'l', '/']
            + decimal_text(index),
        child_path(path, false, index as int) == path + seq!['/', 'a', 'n', 'y', '/']
            + decimal_text(index),
{
    reveal_strlit("/all/");
    reveal_strlit("/any/");
    assert("/all/"@ =~= seq!['/', 'a', 'l', 'l', '/']);
    assert("/any/"@ =~= seq!['/', 'a', 'n', 'y', '/']);
}

/// A negation is told behind its child, whose path is that of the negation and `/not`; it
/// has the opposite result.
pub proof fn law_negations_are_told_behind_their_child(
    child: ResolvedPredicate,
    path: Seq<char>,
    values: InputMap,
    dispositions: DispositionMap,
    log: EvaluationLog,
)
    ensures
        ({
            let below = evaluation(
                child,
                path + seq!['/', 'n', 'o', 't'],
                values,
                dispositions,
                log,
            );
            let (result, after) = evaluation(
                ResolvedPredicate::Not(Box::new(child)),
                path,
                values,
                dispositions,
                log,
            );
            &&& below.0 matches Ok(inner) ==> result == Ok::<bool, FailureModel>(!inner)
                && after.trace == below.1.trace.push((path, !inner))
            &&& below.0 matches Err(failure) ==> result == Err::<bool, FailureModel>(failure)
                && after.trace == below.1.trace
            &&& after.accesses == below.1.accesses
        }),
{
    reveal_strlit("/not");
    assert("/not"@ =~= seq!['/', 'n', 'o', 't']);
}

/// What a condition came to is told by what it holds.
pub proof fn law_outcomes_are_modelled_faithfully(outcome: ConditionEvaluation)
    ensures
        match outcome@ {
            EvaluationModel::Passed => outcome is Passed,
            EvaluationModel::False(trace) => outcome matches ConditionEvaluation::False {
                evaluated_predicates,
            } && trace.len() == evaluated_predicates@.len() && forall|i: int|
                0 <= i < trace.len() ==> #[trigger] trace[i] == (
                    evaluated_predicates@[i].path.view(),
                    evaluated_predicates@[i].result,
                ),
            EvaluationModel::Failed(name, told) => outcome matches ConditionEvaluation::Failed {
                canonical_ref,
                pointer,
            } && canonical_ref@ == name && pointer@ == told,
            EvaluationModel::ValueUnavailable(name) => outcome
                matches ConditionEvaluation::Unavailable {
                input: UnavailableConditionInput::Value { canonical_ref },
            } && canonical_ref@ == name,
            EvaluationModel::DispositionUnavailable(model) => outcome
                matches ConditionEvaluation::Unavailable {
                input: UnavailableConditionInput::Disposition { node },
            } && node.id@ == model.id && node.role == model.role,
        },
{
}

proof fn lemma_first_decision(
    children: Seq<ResolvedPredicate>,
    index: int,
    conjunction: bool,
    values: InputMap,
    dispositions: DispositionMap,
)
    requires
        0 <= index,
    ensures
        ({
            let decided = first_decision(children, index, conjunction, values, dispositions);
            &&& decided == Ok::<bool, FailureModel>(conjunction) <==> forall|i: int|
                index <= i < children.len() ==> verdict(
                    #[trigger] children[i],
                    values,
                    dispositions,
                ) == Ok::<bool, FailureModel>(conjunction)
            &&& decided != Ok::<bool, FailureModel>(conjunction) ==> exists|i: int|
                index <= i < children.len() && decided == verdict(
                    #[trigger] children[i],
                    values,
                    dispositions,
                ) && forall|j: int|
                    index <= j < i ==> verdict(#[trigger] children[j], values, dispositions)
                        == Ok::<bool, FailureModel>(conjunction)
        }),
    decreases children.len() - index,
{
    if index < children.len() {
        lemma_first_decision(children, index + 1, conjunction, values, dispositions);
        if verdict(children[index], values, dispositions) == Ok::<bool, FailureModel>(conjunction) {
            let decided = first_decision(children, index, conjunction, values, dispositions);
            if decided != Ok::<bool, FailureModel>(conjunction) {
                let i = choose|i: int|
                    index + 1 <= i < children.len() && decided == verdict(
                        #[trigger] children[i],
                        values,
                        dispositions,
                    ) && forall|j: int|
                        index + 1 <= j < i ==> verdict(#[trigger] children[j], values, dispositions)
                            == Ok::<bool, FailureModel>(conjunction);
                assert(decided == verdict(children[i], values, dispositions));
            }
        } else {
            assert(verdict(children[index], values, dispositions) == first_decision(
                children,
                index,
                conjunction,
                values,
                dispositions,
            ));
        }
    }
}

/// A conjunction is true exactly if all of its children are, and a disjunction is false
/// exactly if all of its children are. Otherwise the first child that is not so decides: it
/// gives its result, or the reason why it has none.
pub proof fn law_connectives_ask_all_their_children(
    children: Vec<ResolvedPredicate>,
    values: InputMap,
    dispositions: DispositionMap,
)
    ensures
        ({
            let all = verdict(ResolvedPredicate::All(children), values, dispositions);
            let any = verdict(ResolvedPredicate::Any(children), values, dispositions);
            &&& all == Ok::<bool, FailureModel>(true) <==> forall|i: int|
                0 <= i < children@.len() ==> verdict(#[trigger] children@[i], values, dispositions)
                    == Ok::<bool, FailureModel>(true)
            &&& any == Ok::<bool, FailureModel>(false) <==> forall|i: int|
                0 <= i < children@.len() ==> verdict(#[trigger] children@[i], values, dispositions)
                    == Ok::<bool, FailureModel>(false)
            &&& all != Ok::<bool, FailureModel>(true) ==> exists|i: int|
                0 <= i < children@.len() && all == verdict(
                    #[trigger] children@[i],
                    values,
                    dispositions,
                ) && forall|j: int|
                    0 <= j < i ==> verdict(#[trigger] children@[j], values, dispositions) == Ok::<
                        bool,
                        FailureModel,
                    >(true)
            &&& any != Ok::<bool, FailureModel>(false) ==> exists|i: int|
                0 <= i < children@.len() && any == verdict(
                    #[trigger] children@[i],
                    values,
                    dispositions,
                ) && forall|j: int|
                    0 <= j < i ==> verdict(#[trigger] children@[j], values, dispositions) == Ok::<
                        bool,
                        FailureModel,
                    >(false)
        }),
{
    law_connectives(children, ResolvedPredicate::All(children), values, dispositions);
    lemma_first_decision(children@, 0, true, values, dispositions);
    lemma_first_decision(children@, 0, false, values, dispositions);
}

} // verus!

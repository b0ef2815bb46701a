//! What holds of every condition.

use vstd::prelude::*;

use crate::condition::{
    child_path, children_evaluation, completion, condition_outcome, evaluation, leaf_evaluation,
    DispositionMap, EvaluationLog, EvaluationModel, FailureModel, InputMap, ResolvedPredicate,
};

verus! {

proof fn lemma_then_log(first: EvaluationLog, second: EvaluationLog, third: EvaluationLog)
    ensures
        first.then_log(second).then_log(third) == first.then_log(second.then_log(third)),
        first.then_log(EvaluationLog::empty()) == first,
        EvaluationLog::empty().then_log(first) == first,
{
    assert(first.then_log(second).then_log(third) =~= first.then_log(second.then_log(third)));
    assert(first.then_log(EvaluationLog::empty()) =~= first);
    assert(EvaluationLog::empty().then_log(first) =~= first);
}

proof fn lemma_leaf_log(
    predicate: ResolvedPredicate,
    values: InputMap,
    dispositions: DispositionMap,
    log: EvaluationLog,
)
    ensures
        ({
            let alone = leaf_evaluation(predicate, values, dispositions, EvaluationLog::empty());
            let within = leaf_evaluation(predicate, values, dispositions, log);
            within.0 == alone.0 && within.1 == log.then_log(alone.1)
        }),
{
    let alone = leaf_evaluation(predicate, values, dispositions, EvaluationLog::empty());
    let within = leaf_evaluation(predicate, values, dispositions, log);
    assert(within.1 =~= log.then_log(alone.1));
}

proof fn lemma_completion_log(
    alone: (Result<bool, FailureModel>, EvaluationLog),
    within: (Result<bool, FailureModel>, EvaluationLog),
    path: Seq<char>,
    log: EvaluationLog,
)
    requires
        within.0 == alone.0,
        within.1 == log.then_log(alone.1),
    ensures
        completion(within, path).0 == completion(alone, path).0,
        completion(within, path).1 == log.then_log(completion(alone, path).1),
{
    assert(completion(within, path).1 =~= log.then_log(completion(alone, path).1));
}

/// What was evaluated before changes neither the result of a predicate nor what
/// evaluating it adds to the log: the earlier entries stay in front.
pub proof fn law_evaluation_only_extends_the_log(
    predicate: ResolvedPredicate,
    path: Seq<char>,
    values: InputMap,
    dispositions: DispositionMap,
    log: EvaluationLog,
)
    ensures
        ({
            let alone = evaluation(predicate, path, values, dispositions, EvaluationLog::empty());
            let within = evaluation(predicate, path, values, dispositions, log);
            within.0 == alone.0 && within.1 == log.then_log(alone.1)
        }),
    decreases predicate, 0nat,
{
    let empty = EvaluationLog::empty();
    match predicate {
        ResolvedPredicate::All(children) => {
            lemma_children_only_extend_the_log(
                children,
                0,
                true,
                path,
                values,
                dispositions,
                log,
            );
            lemma_completion_log(
                children_evaluation(children, 0, true, path, values, dispositions, empty),
                children_evaluation(children, 0, true, path, values, dispositions, log),
                path,
                log,
            );
        },
        ResolvedPredicate::Any(children) => {
            lemma_children_only_extend_the_log(
                children,
                0,
                false,
                path,
                values,
                dispositions,
                log,
            );
            lemma_completion_log(
                children_evaluation(children, 0, false, path, values, dispositions, empty),
                children_evaluation(children, 0, false, path, values, dispositions, log),
                path,
                log,
            );
        },
        ResolvedPredicate::Not(child) => {
            let inner = path + "/not"@;
            law_evaluation_only_extends_the_log(*child, inner, values, dispositions, log);
            let alone = evaluation(*child, inner, values, dispositions, empty);
            let within = evaluation(*child, inner, values, dispositions, log);
            let negated = match alone.0 {
                Ok(result) => Ok(!result),
                Err(failure) => Err(failure),
            };
            lemma_completion_log((negated, alone.1), (negated, within.1), path, log);
        },
        _ => {
            lemma_leaf_log(predicate, values, dispositions, log);
            lemma_completion_log(
                leaf_evaluation(predicate, values, dispositions, empty),
                leaf_evaluation(predicate, values, dispositions, log),
                path,
                log,
            );
        },
    }
}

proof fn lemma_children_only_extend_the_log(
    children: Vec<ResolvedPredicate>,
    index: int,
    conjunction: bool,
    path: Seq<char>,
    values: InputMap,
    dispositions: DispositionMap,
    log: EvaluationLog,
)
    ensures
        ({
            let alone = children_evaluation(
                children,
                index,
                conjunction,
                path,
                values,
                dispositions,
                EvaluationLog::empty(),
            );
            let within = children_evaluation(
                children,
                index,
                conjunction,
                path,
                values,
                dispositions,
                log,
            );
            within.0 == alone.0 && within.1 == log.then_log(alone.1)
        }),
    decreases children, (children@.len() - index) as nat,
{
    let empty = EvaluationLog::empty();
    if index < 0 || index >= children@.len() {
        lemma_then_log(log, empty, empty);
    } else {
        let inner = child_path(path, conjunction, index);
        let child = children@[index];
        law_evaluation_only_extends_the_log(child, inner, values, dispositions, log);
        let alone = evaluation(child, inner, values, dispositions, empty);
        let within = evaluation(child, inner, values, dispositions, log);
        lemma_children_only_extend_the_log(
            children,
            index + 1,
            conjunction,
            path,
            values,
            dispositions,
            alone.1,
        );
        lemma_children_only_extend_the_log(
            children,
            index + 1,
            conjunction,
            path,
            values,
            dispositions,
            within.1,
        );
        let rest = children_evaluation(
            children,
            index + 1,
            conjunction,
            path,
            values,
            dispositions,
            empty,
        );
        lemma_then_log(log, alone.1, rest.1);
    }
}

/// A predicate that has a result is the last entry that its own evaluation adds
/// to the trace: parts complete before the whole.
pub proof fn law_predicate_completes_last(
    predicate: ResolvedPredicate,
    path: Seq<char>,
    values: InputMap,
    dispositions: DispositionMap,
    log: EvaluationLog,
)
    ensures
        ({
            let (result, after) = evaluation(predicate, path, values, dispositions, log);
            result matches Ok(value) ==> after.trace.len() > log.trace.len() && after.trace.last()
                == (path, value)
        }),
{
    law_evaluation_only_extends_the_log(predicate, path, values, dispositions, log);
    let alone = evaluation(predicate, path, values, dispositions, EvaluationLog::empty());
    assert(alone.0 is Ok ==> alone.1.trace.len() > 0 && alone.1.trace.last() == (
        path,
        alone.0->Ok_0,
    ));
}

/// A false condition keeps a trace that ends with the whole condition being
/// false.
pub proof fn law_false_condition_ends_at_the_root(
    predicate: ResolvedPredicate,
    values: InputMap,
    dispositions: DispositionMap,
)
    ensures
        condition_outcome(predicate, values, dispositions) matches EvaluationModel::False(trace)
            ==> trace.len() > 0 && trace.last() == (Seq::<char>::empty(), false),
{
    law_predicate_completes_last(
        predicate,
        Seq::empty(),
        values,
        dispositions,
        EvaluationLog::empty(),
    );
}

/// Where a predicate stands does not change its result or what it reads.
pub proof fn law_result_does_not_depend_on_the_path(
    predicate: ResolvedPredicate,
    first: Seq<char>,
    second: Seq<char>,
    values: InputMap,
    dispositions: DispositionMap,
    log: EvaluationLog,
    other: EvaluationLog,
)
    requires
        log.accesses == other.accesses,
    ensures
        ({
            let here = evaluation(predicate, first, values, dispositions, log);
            let there = evaluation(predicate, second, values, dispositions, other);
            here.0 == there.0 && here.1.accesses == there.1.accesses
        }),
    decreases predicate, 0nat,
{
    match predicate {
        ResolvedPredicate::All(children) => {
            lemma_children_do_not_depend_on_the_path(
                children,
                0,
                true,
                first,
                second,
                values,
                dispositions,
                log,
                other,
            );
        },
        ResolvedPredicate::Any(children) => {
            lemma_children_do_not_depend_on_the_path(
                children,
                0,
                false,
                first,
                second,
                values,
                dispositions,
                log,
                other,
            );
        },
        ResolvedPredicate::Not(child) => {
            law_result_does_not_depend_on_the_path(
                *child,
                first + "/not"@,
                second + "/not"@,
                values,
                dispositions,
                log,
                other,
            );
        },
        _ => {},
    }
}

proof fn lemma_children_do_not_depend_on_the_path(
    children: Vec<ResolvedPredicate>,
    index: int,
    conjunction: bool,
    first: Seq<char>,
    second: Seq<char>,
    values: InputMap,
    dispositions: DispositionMap,
    log: EvaluationLog,
    other: EvaluationLog,
)
    requires
        log.accesses == other.accesses,
    ensures
        ({
            let here = children_evaluation(
                children,
                index,
                conjunction,
                first,
                values,
                dispositions,
                log,
            );
            let there = children_evaluation(
                children,
                index,
                conjunction,
                second,
                values,
                dispositions,
                other,
            );
            here.0 == there.0 && here.1.accesses == there.1.accesses
        }),
    decreases children, (children@.len() - index) as nat,
{
    if 0 <= index < children@.len() {
        let here = child_path(first, conjunction, index);
        let there = child_path(second, conjunction, index);
        let child = children@[index];
        law_result_does_not_depend_on_the_path(
            child,
            here,
            there,
            values,
            dispositions,
            log,
            other,
        );
        lemma_children_do_not_depend_on_the_path(
            children,
            index + 1,
            conjunction,
            first,
            second,
            values,
            dispositions,
            evaluation(child, here, values, dispositions, log).1,
            evaluation(child, there, values, dispositions, other).1,
        );
    }
}

/// The result of a predicate on its own.
pub open spec fn verdict(
    predicate: ResolvedPredicate,
    values: InputMap,
    dispositions: DispositionMap,
) -> Result<bool, FailureModel> {
    evaluation(predicate, Seq::empty(), values, dispositions, EvaluationLog::empty()).0
}

/// What children from `index` on amount to: the first one that fails or decides.
pub open spec fn first_decision(
    children: Seq<ResolvedPredicate>,
    index: int,
    conjunction: bool,
    values: InputMap,
    dispositions: DispositionMap,
) -> Result<bool, FailureModel>
    decreases children.len() - index,
{
    if index < 0 || index >= children.len() {
        Ok(conjunction)
    } else if verdict(children[index], values, dispositions) == Ok::<bool, FailureModel>(
        conjunction,
    ) {
        first_decision(children, index + 1, conjunction, values, dispositions)
    } else {
        verdict(children[index], values, dispositions)
    }
}

proof fn lemma_children_decide(
    children: Vec<ResolvedPredicate>,
    index: int,
    conjunction: bool,
    path: Seq<char>,
    values: InputMap,
    dispositions: DispositionMap,
    log: EvaluationLog,
)
    ensures
        children_evaluation(children, index, conjunction, path, values, dispositions, log).0
            == first_decision(children@, index, conjunction, values, dispositions),
    decreases children@.len() - index,
{
    if 0 <= index < children@.len() {
        let inner = child_path(path, conjunction, index);
        let child = children@[index];
        law_evaluation_only_extends_the_log(child, inner, values, dispositions, log);
        law_result_does_not_depend_on_the_path(
            child,
            inner,
            Seq::empty(),
            values,
            dispositions,
            EvaluationLog::empty(),
            EvaluationLog::empty(),
        );
        lemma_children_decide(
            children,
            index + 1,
            conjunction,
            path,
            values,
            dispositions,
            evaluation(child, inner, values, dispositions, log).1,
        );
    }
}

/// A conjunction is decided by its first child that is not true, a disjunction
/// by its first child that is not false, and a negation inverts its child.
pub proof fn law_connectives(
    children: Vec<ResolvedPredicate>,
    child: ResolvedPredicate,
    values: InputMap,
    dispositions: DispositionMap,
)
    ensures
        verdict(ResolvedPredicate::All(children), values, dispositions) == first_decision(
            children@,
            0,
            true,
            values,
            dispositions,
        ),
        verdict(ResolvedPredicate::Any(children), values, dispositions) == first_decision(
            children@,
            0,
            false,
            values,
            dispositions,
        ),
        verdict(ResolvedPredicate::Not(Box::new(child)), values, dispositions) == (match verdict(
            child,
            values,
            dispositions,
        ) {
            Ok(result) => Ok(!result),
            Err(failure) => Err(failure),
        }),
{
    let empty = EvaluationLog::empty();
    lemma_children_decide(children, 0, true, Seq::empty(), values, dispositions, empty);
    lemma_children_decide(children, 0, false, Seq::empty(), values, dispositions, empty);
    law_result_does_not_depend_on_the_path(
        child,
        Seq::<char>::empty() + "/not"@,
        Seq::empty(),
        values,
        dispositions,
        empty,
        empty,
    );
}

} // verus!

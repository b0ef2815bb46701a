//! Workflow conditions: predicates over captured values and the dispositions of
//! nodes, evaluated left to right with a trace of what was decided.

use vstd::prelude::*;

use crate::json::{json_equal, json_semantically_equal, JsonValue};
use crate::pointer::{selected, JsonPointer, JsonSelection};
use crate::text::{decimal_text, push_decimal_text, push_text, text_equal, texts};

verus! {

/// Whether a condition operand is text or JSON.
#[derive(Clone, Copy, Debug, PartialEq, Eq, Structural)]
pub enum ConditionValueKind {
    Text,
    Json,
}

/// An operand of an equality.
#[derive(Debug, PartialEq, Eq)]
pub struct ResolvedOperand {
    kind: ConditionValueKind,
    value: ResolvedOperandValue,
}

/// Where an operand's value comes from.
#[derive(Debug, PartialEq, Eq)]
pub enum ResolvedOperandValue {
    Reference { canonical_ref: String, pointer: Option<JsonPointer> },
    TextLiteral(String),
    JsonLiteral(JsonValue),
}

/// A reference with the pointer that should select something from it.
#[derive(Debug, PartialEq, Eq)]
pub struct ResolvedSelector {
    canonical_ref: String,
    pointer: JsonPointer,
}

/// How a node ended.
#[derive(Clone, Copy, Debug, PartialEq, Eq, Structural)]
pub enum TerminalDisposition {
    Succeeded,
    Failed,
    Skipped,
    Blocked,
    NotRun,
    Cancelled,
}

/// Whether a node is an ordinary step or a finalizer.
#[derive(Clone, Copy, Debug, PartialEq, Eq, Structural)]
pub enum WorkflowNodeRole {
    Step,
    Finalizer,
}

/// A node of a workflow.
#[derive(Clone, Debug, PartialEq, Eq)]
pub struct WorkflowNode {
    pub id: String,
    pub role: WorkflowNodeRole,
}

/// A node, by its identifier and role.
pub struct NodeModel {
    pub id: Seq<char>,
    pub role: WorkflowNodeRole,
}

impl View for WorkflowNode {
    type V = NodeModel;

    open spec fn view(&self) -> NodeModel {
        NodeModel { id: self.id@, role: self.role }
    }
}

impl WorkflowNode {
    /// A copy of the node.
    pub fn duplicate(&self) -> (copy: WorkflowNode)
        ensures
            copy@ == self@,
    {
        WorkflowNode { id: self.id.clone(), role: self.role }
    }
}

/// A predicate of a condition.
#[derive(Debug, PartialEq, Eq)]
pub enum ResolvedPredicate {
    All(Vec<ResolvedPredicate>),
    Any(Vec<ResolvedPredicate>),
    Not(Box<ResolvedPredicate>),
    Equals([ResolvedOperand; 2]),
    Exists(ResolvedSelector),
    Disposition { node: WorkflowNode, is: TerminalDisposition },
}

/// A value that a condition can read.
pub enum ConditionInput {
    Text(Seq<char>),
    Json(JsonValue),
}

/// Why a condition has no result.
pub enum FailureModel {
    PointerMissing(Seq<char>, Seq<char>),
    ValueUnavailable(Seq<char>),
    DispositionUnavailable(NodeModel),
}

/// What evaluating a condition did: the predicates that it completed with their
/// results, and the references that it read, both in order.
#[verifier::ext_equal]
pub struct EvaluationLog {
    pub trace: Seq<(Seq<char>, bool)>,
    pub accesses: Seq<Seq<char>>,
}

impl EvaluationLog {
    /// Nothing evaluated yet.
    pub open spec fn empty() -> EvaluationLog {
        EvaluationLog { trace: Seq::empty(), accesses: Seq::empty() }
    }

    /// With one more completed predicate.
    pub open spec fn completed(self, path: Seq<char>, result: bool) -> EvaluationLog {
        EvaluationLog { trace: self.trace.push((path, result)), ..self }
    }

    /// With one more reference read.
    pub open spec fn reading(self, canonical_ref: Seq<char>) -> EvaluationLog {
        EvaluationLog { accesses: self.accesses.push(canonical_ref), ..self }
    }

    /// What `self` did, then what `later` did.
    pub open spec fn then_log(self, later: EvaluationLog) -> EvaluationLog {
        EvaluationLog {
            trace: self.trace + later.trace,
            accesses: self.accesses + later.accesses,
        }
    }
}

/// The values that a condition can read, by reference.
pub type InputMap = Map<Seq<char>, ConditionInput>;

/// The dispositions that a condition can test, by node.
pub type DispositionMap = Map<NodeModel, TerminalDisposition>;

impl ResolvedOperand {
    /// Whether the operand is text or JSON.
    pub closed spec fn value_kind(&self) -> ConditionValueKind {
        self.kind
    }

    /// The reference that the operand reads, if it reads one.
    pub closed spec fn reference(&self) -> Option<Seq<char>> {
        match &self.value {
            ResolvedOperandValue::Reference { canonical_ref, .. } => Some(canonical_ref@),
            _ => None,
        }
    }

    /// The pointer that the operand applies to what it reads.
    pub closed spec fn reference_pointer(&self) -> Option<JsonPointer> {
        match &self.value {
            ResolvedOperandValue::Reference { pointer, .. } => *pointer,
            _ => None,
        }
    }

    /// The value that the operand gives itself.
    pub closed spec fn literal(&self) -> Option<ConditionInput> {
        match &self.value {
            ResolvedOperandValue::TextLiteral(text) => Some(ConditionInput::Text(text@)),
            ResolvedOperandValue::JsonLiteral(value) => Some(ConditionInput::Json(*value)),
            _ => None,
        }
    }

    /// An operand reads a reference or gives its value itself.
    pub proof fn law_operands_read_or_give(&self)
        ensures
            self.reference() is Some <==> self.literal() is None,
    {
    }

    /// Reads the text of a reference.
    pub fn text_reference(canonical_ref: &str) -> (operand: ResolvedOperand)
        ensures
            operand.value_kind() == ConditionValueKind::Text,
            operand.reference() == Some(canonical_ref@),
            operand.reference_pointer() is None,
            operand.literal() is None,
    {
        ResolvedOperand {
            kind: ConditionValueKind::Text,
            value: ResolvedOperandValue::Reference {
                canonical_ref: canonical_ref.to_owned(),
                pointer: None,
            },
        }
    }

    /// Reads the JSON value of a reference, or a part of it.
    pub fn json_reference(canonical_ref: &str, pointer: Option<JsonPointer>) -> (operand:
        ResolvedOperand)
        ensures
            operand.value_kind() == ConditionValueKind::Json,
            operand.reference() == Some(canonical_ref@),
            operand.reference_pointer() == pointer,
            operand.literal() is None,
    {
        ResolvedOperand {
            kind: ConditionValueKind::Json,
            value: ResolvedOperandValue::Reference {
                canonical_ref: canonical_ref.to_owned(),
                pointer,
            },
        }
    }

    /// Gives a text.
    pub fn text_literal(value: &str) -> (operand: ResolvedOperand)
        ensures
            operand.value_kind() == ConditionValueKind::Text,
            operand.reference() is None,
            operand.reference_pointer() is None,
            operand.literal() == Some(ConditionInput::Text(value@)),
    {
        ResolvedOperand {
            kind: ConditionValueKind::Text,
            value: ResolvedOperandValue::TextLiteral(value.to_owned()),
        }
    }

    /// Gives a JSON value.
    pub fn json_literal(value: JsonValue) -> (operand: ResolvedOperand)
        ensures
            operand.value_kind() == ConditionValueKind::Json,
            operand.reference() is None,
            operand.reference_pointer() is None,
            operand.literal() == Some(ConditionInput::Json(value)),
    {
        ResolvedOperand {
            kind: ConditionValueKind::Json,
            value: ResolvedOperandValue::JsonLiteral(value),
        }
    }

    /// Whether the operand is text or JSON.
    pub fn kind(&self) -> (kind: ConditionValueKind)
        ensures
            kind == self.value_kind(),
    {
        self.kind
    }
}

impl ResolvedSelector {
    /// The reference that is read.
    pub closed spec fn reference(&self) -> Seq<char> {
        self.canonical_ref@
    }

    /// The pointer that should select something.
    pub closed spec fn target(&self) -> JsonPointer {
        self.pointer
    }

    /// Tests whether `pointer` selects something from a reference.
    pub fn new(canonical_ref: &str, pointer: JsonPointer) -> (selector: ResolvedSelector)
        ensures
            selector.reference() == canonical_ref@,
            selector.target() == pointer,
    {
        ResolvedSelector { canonical_ref: canonical_ref.to_owned(), pointer }
    }
}

/// What an operand amounts to.
pub open spec fn operand_input(operand: ResolvedOperand, values: InputMap) -> Result<
    ConditionInput,
    FailureModel,
> {
    match operand.literal() {
        Some(input) => Ok(input),
        None => {
            let canonical_ref = operand.reference()->Some_0;
            if !values.contains_key(canonical_ref) {
                Err(FailureModel::ValueUnavailable(canonical_ref))
            } else {
                match (operand.value_kind(), values[canonical_ref]) {
                    (ConditionValueKind::Text, ConditionInput::Text(text)) => Ok(
                        ConditionInput::Text(text),
                    ),
                    (ConditionValueKind::Json, ConditionInput::Json(value)) => match (
                    operand.reference_pointer()) {
                        None => Ok(ConditionInput::Json(value)),
                        Some(pointer) => match selected(value, pointer.path()) {
                            Some(found) => Ok(ConditionInput::Json(found)),
                            None => Err(
                                FailureModel::PointerMissing(canonical_ref, pointer.source()),
                            ),
                        },
                    },
                    _ => Err(FailureModel::ValueUnavailable(canonical_ref)),
                }
            }
        },
    }
}

/// What evaluating an operand reads.
pub open spec fn operand_log(operand: ResolvedOperand, log: EvaluationLog) -> EvaluationLog {
    match operand.reference() {
        Some(canonical_ref) => log.reading(canonical_ref),
        None => log,
    }
}

/// Whether two operands are the same value. Text and JSON never are.
pub open spec fn inputs_equal(left: ConditionInput, right: ConditionInput) -> bool {
    match (left, right) {
        (ConditionInput::Text(left), ConditionInput::Text(right)) => left == right,
        (ConditionInput::Json(left), ConditionInput::Json(right)) => json_equal(left, right),
        _ => false,
    }
}

/// The path of the child at `index` of a conjunction or a disjunction.
pub open spec fn child_path(path: Seq<char>, conjunction: bool, index: int) -> Seq<char> {
    path + (if conjunction {
        "/all/"@
    } else {
        "/any/"@
    }) + decimal_text(index as nat)
}

/// Evaluates a predicate that is not made of other predicates.
pub open spec fn leaf_evaluation(
    predicate: ResolvedPredicate,
    values: InputMap,
    dispositions: DispositionMap,
    log: EvaluationLog,
) -> (Result<bool, FailureModel>, EvaluationLog) {
    match predicate {
        ResolvedPredicate::Equals(operands) => {
            let after_left = operand_log(operands@[0], log);
            match operand_input(operands@[0], values) {
                Err(failure) => (Err(failure), after_left),
                Ok(left) => {
                    let after_right = operand_log(operands@[1], after_left);
                    match operand_input(operands@[1], values) {
                        Err(failure) => (Err(failure), after_right),
                        Ok(right) => (Ok(inputs_equal(left, right)), after_right),
                    }
                },
            }
        },
        ResolvedPredicate::Exists(selector) => {
            let canonical_ref = selector.reference();
            let after = log.reading(canonical_ref);
            if values.contains_key(canonical_ref) && values[canonical_ref] is Json {
                (
                    Ok(
                        selected(
                            values[canonical_ref]->Json_0,
                            selector.target().path(),
                        ) is Some,
                    ),
                    after,
                )
            } else {
                (Err(FailureModel::ValueUnavailable(canonical_ref)), after)
            }
        },
        ResolvedPredicate::Disposition { node, is } => if dispositions.contains_key(node@) {
            (Ok(dispositions[node@] == is), log)
        } else {
            (Err(FailureModel::DispositionUnavailable(node@)), log)
        },
        _ => (Ok(false), log),
    }
}

/// Records the result of a completed predicate.
pub open spec fn completion(
    outcome: (Result<bool, FailureModel>, EvaluationLog),
    path: Seq<char>,
) -> (Result<bool, FailureModel>, EvaluationLog) {
    match outcome.0 {
        Ok(result) => (Ok(result), outcome.1.completed(path, result)),
        Err(failure) => (Err(failure), outcome.1),
    }
}

/// Evaluates a predicate: its result or why it has none, and what was done.
pub open spec fn evaluation(
    predicate: ResolvedPredicate,
    path: Seq<char>,
    values: InputMap,
    dispositions: DispositionMap,
    log: EvaluationLog,
) -> (Result<bool, FailureModel>, EvaluationLog)
    decreases predicate, 0nat,
{
    match predicate {
        ResolvedPredicate::All(children) => completion(
            children_evaluation(children, 0, true, path, values, dispositions, log),
            path,
        ),
        ResolvedPredicate::Any(children) => completion(
            children_evaluation(children, 0, false, path, values, dispositions, log),
            path,
        ),
        ResolvedPredicate::Not(child) => {
            let outcome = evaluation(*child, path + "/not"@, values, dispositions, log);
            completion(
                (
                    match outcome.0 {
                        Ok(result) => Ok(!result),
                        Err(failure) => Err(failure),
                    },
                    outcome.1,
                ),
                path,
            )
        },
        _ => completion(leaf_evaluation(predicate, values, dispositions, log), path),
    }
}

/// Evaluates the children from `index` on until one of them decides: a false
/// child decides a conjunction, a true child a disjunction.
pub open spec fn children_evaluation(
    children: Vec<ResolvedPredicate>,
    index: int,
    conjunction: bool,
    path: Seq<char>,
    values: InputMap,
    dispositions: DispositionMap,
    log: EvaluationLog,
) -> (Result<bool, FailureModel>, EvaluationLog)
    decreases children, (children@.len() - index) as nat,
{
    if index < 0 || index >= children@.len() {
        (Ok(conjunction), log)
    } else {
        let outcome = evaluation(
            children@[index],
            child_path(path, conjunction, index),
            values,
            dispositions,
            log,
        );
        match outcome.0 {
            Err(failure) => (Err(failure), outcome.1),
            Ok(result) => if result != conjunction {
                (Ok(result), outcome.1)
            } else {
                children_evaluation(
                    children,
                    index + 1,
                    conjunction,
                    path,
                    values,
                    dispositions,
                    outcome.1,
                )
            },
        }
    }
}

/// Where a predicate stands within its condition.
#[derive(Debug, PartialEq, Eq)]
pub struct PredicatePath(String);

impl PredicatePath {
    /// The path as text.
    pub closed spec fn view(&self) -> Seq<char> {
        self.0@
    }

    /// The path as text.
    pub fn as_str(&self) -> (text: &str)
        ensures
            text@ == self.view(),
    {
        self.0.as_str()
    }

    /// The path of the whole condition.
    pub fn root() -> (path: PredicatePath)
        ensures
            path.view() == Seq::<char>::empty(),
    {
        PredicatePath(String::new())
    }

    /// The path of the part of a predicate that `segment` names.
    pub fn child(&self, segment: &str) -> (path: PredicatePath)
        ensures
            path.view() == self.view() + "/"@ + segment@,
    {
        let mut text: String = self.0.clone();
        push_text(&mut text, "/");
        push_text(&mut text, segment);
        PredicatePath(text)
    }

    /// The path of the child at `index` of a conjunction or a disjunction.
    pub fn indexed_child(&self, conjunction: bool, index: usize) -> (path: PredicatePath)
        ensures
            path.view() == child_path(self.view(), conjunction, index as int),
    {
        let mut text: String = self.0.clone();
        if conjunction {
            push_text(&mut text, "/all/");
        } else {
            push_text(&mut text, "/any/");
        }
        push_decimal_text(&mut text, index as u64);
        PredicatePath(text)
    }

    /// A copy of the path.
    pub fn duplicate(&self) -> (path: PredicatePath)
        ensures
            path.view() == self.view(),
    {
        PredicatePath(self.0.clone())
    }
}

/// A predicate that was evaluated, with its result.
#[derive(Debug, PartialEq, Eq)]
pub struct EvaluatedPredicate {
    pub path: PredicatePath,
    pub result: bool,
}

/// What a condition needed but could not read.
#[derive(Debug, PartialEq, Eq)]
pub enum UnavailableConditionInput {
    Value { canonical_ref: String },
    Disposition { node: WorkflowNode },
}

/// What a condition came to.
#[derive(Debug, PartialEq, Eq)]
pub enum ConditionEvaluation {
    Passed,
    False { evaluated_predicates: Vec<EvaluatedPredicate> },
    Failed { canonical_ref: String, pointer: String },
    Unavailable { input: UnavailableConditionInput },
}

/// What a condition came to, in terms of texts.
pub enum EvaluationModel {
    Passed,
    False(Seq<(Seq<char>, bool)>),
    Failed(Seq<char>, Seq<char>),
    ValueUnavailable(Seq<char>),
    DispositionUnavailable(NodeModel),
}

/// The paths and results of evaluated predicates.
pub open spec fn trace_entries(trace: Seq<EvaluatedPredicate>) -> Seq<(Seq<char>, bool)> {
    trace.map_values(|entry: EvaluatedPredicate| (entry.path.view(), entry.result))
}

impl View for ConditionEvaluation {
    type V = EvaluationModel;

    open spec fn view(&self) -> EvaluationModel {
        match self {
            ConditionEvaluation::Passed => EvaluationModel::Passed,
            ConditionEvaluation::False { evaluated_predicates } => EvaluationModel::False(
                trace_entries(evaluated_predicates@),
            ),
            ConditionEvaluation::Failed { canonical_ref, pointer } => EvaluationModel::Failed(
                canonical_ref@,
                pointer@,
            ),
            ConditionEvaluation::Unavailable {
                input: UnavailableConditionInput::Value { canonical_ref },
            } => EvaluationModel::ValueUnavailable(canonical_ref@),
            ConditionEvaluation::Unavailable {
                input: UnavailableConditionInput::Disposition { node },
            } => EvaluationModel::DispositionUnavailable(node@),
        }
    }
}

/// What a condition comes to. Only a false one keeps its trace.
pub open spec fn condition_outcome(
    predicate: ResolvedPredicate,
    values: InputMap,
    dispositions: DispositionMap,
) -> EvaluationModel {
    let (result, log) = evaluation(
        predicate,
        Seq::empty(),
        values,
        dispositions,
        EvaluationLog::empty(),
    );
    match result {
        Ok(true) => EvaluationModel::Passed,
        Ok(false) => EvaluationModel::False(log.trace),
        Err(FailureModel::PointerMissing(canonical_ref, pointer)) => EvaluationModel::Failed(
            canonical_ref,
            pointer,
        ),
        Err(FailureModel::ValueUnavailable(canonical_ref)) => EvaluationModel::ValueUnavailable(
            canonical_ref,
        ),
        Err(
            FailureModel::DispositionUnavailable(node),
        ) => EvaluationModel::DispositionUnavailable(node),
    }
}

/// A captured value.
#[derive(Clone, Copy)]
pub enum CapturedConditionValue<'a> {
    Text(&'a str),
    Json(&'a JsonValue),
}

impl<'a> View for CapturedConditionValue<'a> {
    type V = ConditionInput;

    open spec fn view(&self) -> ConditionInput {
        match self {
            CapturedConditionValue::Text(text) => ConditionInput::Text(text@),
            CapturedConditionValue::Json(value) => ConditionInput::Json(**value),
        }
    }
}

/// The last value that was captured for a reference.
spec fn last_value(
    values: Seq<(String, CapturedConditionValue<'_>)>,
    canonical_ref: Seq<char>,
) -> Option<ConditionInput>
    decreases values.len(),
{
    if values.len() == 0 {
        None
    } else if values.last().0@ == canonical_ref {
        Some(values.last().1@)
    } else {
        last_value(values.drop_last(), canonical_ref)
    }
}

/// The captured values that a condition can read.
pub struct ConditionValues<'a> {
    values: Vec<(String, CapturedConditionValue<'a>)>,
}

impl<'a> Default for ConditionValues<'a> {
    fn default() -> (values: Self)
        ensures
            values.inputs() == Map::<Seq<char>, ConditionInput>::empty(),
    {
        let values = ConditionValues { values: Vec::new() };
        assert(values.inputs() =~= Map::<Seq<char>, ConditionInput>::empty());
        values
    }
}

impl<'a> ConditionValues<'a> {
    /// The captured values, by reference.
    pub closed spec fn inputs(&self) -> InputMap {
        Map::new(
            |canonical_ref: Seq<char>| last_value(self.values@, canonical_ref) is Some,
            |canonical_ref: Seq<char>| last_value(self.values@, canonical_ref)->Some_0,
        )
    }

    fn insert_value(&mut self, canonical_ref: &str, value: CapturedConditionValue<'a>)
        ensures
            final(self).inputs() == old(self).inputs().insert(canonical_ref@, value@),
    {
        let ghost before = self.values@;
        self.values.push((canonical_ref.to_owned(), value));
        proof {
            assert(self.values@.drop_last() =~= before);
            assert(self.inputs() =~= old(self).inputs().insert(canonical_ref@, value@));
        }
    }

    /// Captures a text.
    pub fn insert_text_value(&mut self, canonical_ref: &str, value: &'a str)
        ensures
            final(self).inputs() == old(self).inputs().insert(
                canonical_ref@,
                ConditionInput::Text(value@),
            ),
    {
        self.insert_value(canonical_ref, CapturedConditionValue::Text(value));
    }

    /// Captures a JSON value.
    pub fn insert_json_value(&mut self, canonical_ref: &str, value: &'a JsonValue)
        ensures
            final(self).inputs() == old(self).inputs().insert(
                canonical_ref@,
                ConditionInput::Json(*value),
            ),
    {
        self.insert_value(canonical_ref, CapturedConditionValue::Json(value));
    }

    /// The value of a reference.
    pub fn get(&self, canonical_ref: &str) -> (value: Option<CapturedConditionValue<'a>>)
        ensures
            match value {
                Some(captured) => self.inputs().contains_key(canonical_ref@) && self.inputs()[
                    canonical_ref@] == captured@,
                None => !self.inputs().contains_key(canonical_ref@),
            },
    {
        let mut remaining: usize = self.values.len();
        assert(self.values@.take(remaining as int) =~= self.values@);
        while remaining > 0
            invariant
                remaining <= self.values@.len(),
                last_value(self.values@, canonical_ref@) == last_value(
                    self.values@.take(remaining as int),
                    canonical_ref@,
                ),
            decreases remaining,
        {
            proof {
                let known = self.values@.take(remaining as int);
                assert(known.drop_last() =~= self.values@.take(remaining - 1));
                assert(known.last() == self.values@[remaining - 1]);
            }
            remaining = remaining - 1;
            if text_equal(self.values[remaining].0.as_str(), canonical_ref) {
                return Some(self.values[remaining].1);
            }
        }
        None
    }
}

/// The last disposition that was recorded for a node.
spec fn last_disposition(
    values: Seq<(WorkflowNode, TerminalDisposition)>,
    node: NodeModel,
) -> Option<TerminalDisposition>
    decreases values.len(),
{
    if values.len() == 0 {
        None
    } else if values.last().0@ == node {
        Some(values.last().1)
    } else {
        last_disposition(values.drop_last(), node)
    }
}

/// The dispositions that a condition can test.
pub struct ConditionDispositions {
    values: Vec<(WorkflowNode, TerminalDisposition)>,
}

impl Default for ConditionDispositions {
    fn default() -> (dispositions: Self)
        ensures
            dispositions.recorded() == Map::<NodeModel, TerminalDisposition>::empty(),
    {
        let dispositions = ConditionDispositions { values: Vec::new() };
        assert(dispositions.recorded() =~= Map::<NodeModel, TerminalDisposition>::empty());
        dispositions
    }
}

impl ConditionDispositions {
    /// The recorded dispositions, by node.
    pub closed spec fn recorded(&self) -> DispositionMap {
        Map::new(
            |node: NodeModel| last_disposition(self.values@, node) is Some,
            |node: NodeModel| last_disposition(self.values@, node)->Some_0,
        )
    }

    /// Records how a node ended.
    pub fn insert(&mut self, node: WorkflowNode, disposition: TerminalDisposition)
        ensures
            final(self).recorded() == old(self).recorded().insert(node@, disposition),
    {
        let ghost before = self.values@;
        self.values.push((node, disposition));
        proof {
            assert(self.values@.drop_last() =~= before);
            assert(self.recorded() =~= old(self).recorded().insert(node@, disposition));
        }
    }

    /// How a node ended.
    pub fn get(&self, node: &WorkflowNode) -> (disposition: Option<TerminalDisposition>)
        ensures
            match disposition {
                Some(recorded) => self.recorded().contains_key(node@) && self.recorded()[node@]
                    == recorded,
                None => !self.recorded().contains_key(node@),
            },
    {
        let mut remaining: usize = self.values.len();
        assert(self.values@.take(remaining as int) =~= self.values@);
        while remaining > 0
            invariant
                remaining <= self.values@.len(),
                last_disposition(self.values@, node@) == last_disposition(
                    self.values@.take(remaining as int),
                    node@,
                ),
            decreases remaining,
        {
            proof {
                let known = self.values@.take(remaining as int);
                assert(known.drop_last() =~= self.values@.take(remaining - 1));
                assert(known.last() == self.values@[remaining - 1]);
            }
            remaining = remaining - 1;
            let entry: &(WorkflowNode, TerminalDisposition) = &self.values[remaining];
            if entry.0.role == node.role && text_equal(entry.0.id.as_str(), node.id.as_str()) {
                return Some(entry.1);
            }
        }
        None
    }
}

/// Why a condition has no result.
pub enum EvaluationFailure {
    PointerMissing { canonical_ref: String, pointer: String },
    Unavailable(UnavailableConditionInput),
}

impl View for EvaluationFailure {
    type V = FailureModel;

    open spec fn view(&self) -> FailureModel {
        match self {
            EvaluationFailure::PointerMissing {
                canonical_ref,
                pointer,
            } => FailureModel::PointerMissing(canonical_ref@, pointer@),
            EvaluationFailure::Unavailable(
                UnavailableConditionInput::Value { canonical_ref },
            ) => FailureModel::ValueUnavailable(canonical_ref@),
            EvaluationFailure::Unavailable(
                UnavailableConditionInput::Disposition { node },
            ) => FailureModel::DispositionUnavailable(node@),
        }
    }
}

/// What evaluating a condition has done so far.
pub struct EvaluationRecord {
    pub trace: Vec<EvaluatedPredicate>,
    pub accesses: Vec<String>,
}

impl View for EvaluationRecord {
    type V = EvaluationLog;

    open spec fn view(&self) -> EvaluationLog {
        EvaluationLog { trace: trace_entries(self.trace@), accesses: texts(self.accesses@) }
    }
}

impl EvaluationRecord {
    /// Nothing evaluated yet.
    pub fn new() -> (record: EvaluationRecord)
        ensures
            record@ == EvaluationLog::empty(),
    {
        let record = EvaluationRecord { trace: Vec::new(), accesses: Vec::new() };
        assert(record@ =~= EvaluationLog::empty());
        record
    }

    fn complete(&mut self, path: &PredicatePath, result: bool)
        ensures
            final(self)@ == old(self)@.completed(path.view(), result),
    {
        self.trace.push(EvaluatedPredicate { path: path.duplicate(), result });
        assert(self@ =~= old(self)@.completed(path.view(), result));
    }

    fn read(&mut self, canonical_ref: &str)
        ensures
            final(self)@ == old(self)@.reading(canonical_ref@),
    {
        self.accesses.push(canonical_ref.to_owned());
        assert(self@ =~= old(self)@.reading(canonical_ref@));
    }
}

/// The value of an operand.
#[derive(Clone, Copy)]
pub enum SelectedOperand<'a> {
    Text(&'a str),
    Json(&'a JsonValue),
}

impl<'a> View for SelectedOperand<'a> {
    type V = ConditionInput;

    open spec fn view(&self) -> ConditionInput {
        match self {
            SelectedOperand::Text(text) => ConditionInput::Text(text@),
            SelectedOperand::Json(value) => ConditionInput::Json(**value),
        }
    }
}

/// Finds the value of an operand.
pub fn resolve_operand<'a>(
    operand: &'a ResolvedOperand,
    values: &ConditionValues<'a>,
    record: &mut EvaluationRecord,
) -> (resolved: Result<SelectedOperand<'a>, EvaluationFailure>)
    ensures
        final(record)@ == operand_log(*operand, old(record)@),
        match operand_input(*operand, values.inputs()) {
            Ok(input) => resolved matches Ok(found) && found@ == input,
            Err(failure) => resolved matches Err(reported) && reported@ == failure,
        },
{
    match &operand.value {
        ResolvedOperandValue::TextLiteral(value) => Ok(SelectedOperand::Text(value.as_str())),
        ResolvedOperandValue::JsonLiteral(value) => Ok(SelectedOperand::Json(value)),
        ResolvedOperandValue::Reference { canonical_ref, pointer } => {
            record.read(canonical_ref.as_str());
            match (operand.kind, values.get(canonical_ref.as_str())) {
                (ConditionValueKind::Text, Some(CapturedConditionValue::Text(value))) => Ok(
                    SelectedOperand::Text(value),
                ),
                (ConditionValueKind::Json, Some(CapturedConditionValue::Json(value))) => {
                    match pointer {
                        None => Ok(SelectedOperand::Json(value)),
                        Some(pointer) => match pointer.select(value) {
                            JsonSelection::Selected(found) => Ok(SelectedOperand::Json(found)),
                            JsonSelection::Missing => Err(
                                EvaluationFailure::PointerMissing {
                                    canonical_ref: canonical_ref.clone(),
                                    pointer: pointer.authored().to_owned(),
                                },
                            ),
                        },
                    }
                },
                _ => Err(
                    EvaluationFailure::Unavailable(
                        UnavailableConditionInput::Value { canonical_ref: canonical_ref.clone() },
                    ),
                ),
            }
        },
    }
}

/// Reads the JSON value of a reference.
pub fn resolve_json_reference<'a>(
    canonical_ref: &str,
    values: &ConditionValues<'a>,
    record: &mut EvaluationRecord,
) -> (resolved: Result<&'a JsonValue, EvaluationFailure>)
    ensures
        final(record)@ == old(record)@.reading(canonical_ref@),
        if values.inputs().contains_key(canonical_ref@) && values.inputs()[canonical_ref@] is Json {
            resolved matches Ok(value) && *value == values.inputs()[canonical_ref@]->Json_0
        } else {
            resolved matches Err(failure) && failure@ == FailureModel::ValueUnavailable(
                canonical_ref@,
            )
        },
{
    record.read(canonical_ref);
    match values.get(canonical_ref) {
        Some(CapturedConditionValue::Json(value)) => Ok(value),
        _ => Err(
            EvaluationFailure::Unavailable(
                UnavailableConditionInput::Value { canonical_ref: canonical_ref.to_owned() },
            ),
        ),
    }
}

/// Whether two operands are the same value.
pub fn operands_equal(left: SelectedOperand<'_>, right: SelectedOperand<'_>) -> (equal: bool)
    ensures
        equal == inputs_equal(left@, right@),
{
    match (left, right) {
        (SelectedOperand::Text(left), SelectedOperand::Text(right)) => text_equal(left, right),
        (SelectedOperand::Json(left), SelectedOperand::Json(right)) => json_semantically_equal(
            left,
            right,
        ),
        _ => false,
    }
}

/// Evaluates a predicate.
pub fn evaluate_predicate<'a>(
    predicate: &'a ResolvedPredicate,
    path: &PredicatePath,
    values: &ConditionValues<'a>,
    dispositions: &ConditionDispositions,
    record: &mut EvaluationRecord,
) -> (outcome: Result<bool, EvaluationFailure>)
    ensures
        ({
            let (result, log) = evaluation(
                *predicate,
                path.view(),
                values.inputs(),
                dispositions.recorded(),
                old(record)@,
            );
            &&& final(record)@ == log
            &&& match result {
                Ok(expected) => outcome matches Ok(actual) && actual == expected,
                Err(failure) => outcome matches Err(reported) && reported@ == failure,
            }
        }),
    decreases predicate, 0nat,
{
    let result: bool = match predicate {
        ResolvedPredicate::All(children) => {
            proof {
                assert(decreases_to!(*predicate => predicate->All_0));
            }
            evaluate_children(children, true, path, values, dispositions, record)?
        },
        ResolvedPredicate::Any(children) => {
            proof {
                assert(decreases_to!(*predicate => predicate->Any_0));
            }
            evaluate_children(children, false, path, values, dispositions, record)?
        },
        ResolvedPredicate::Not(child) => {
            let child_path: PredicatePath = path.child("not");
            proof {
                reveal_strlit("/");
                reveal_strlit("not");
                reveal_strlit("/not");
                assert("/"@ + "not"@ =~= "/not"@);
                assert(path.view() + "/"@ + "not"@ =~= path.view() + "/not"@);
            }
            !evaluate_predicate(child, &child_path, values, dispositions, record)?
        },
        ResolvedPredicate::Equals(operands) => {
            let left: SelectedOperand<'_> = resolve_operand(&operands[0], values, record)?;
            let right: SelectedOperand<'_> = resolve_operand(&operands[1], values, record)?;
            operands_equal(left, right)
        },
        ResolvedPredicate::Exists(selector) => {
            let value: &JsonValue = resolve_json_reference(
                selector.canonical_ref.as_str(),
                values,
                record,
            )?;
            match selector.pointer.select(value) {
                JsonSelection::Selected(_) => true,
                JsonSelection::Missing => false,
            }
        },
        ResolvedPredicate::Disposition { node, is } => match dispositions.get(node) {
            Some(disposition) => disposition == *is,
            None => {
                return Err(
                    EvaluationFailure::Unavailable(
                        UnavailableConditionInput::Disposition { node: node.duplicate() },
                    ),
                );
            },
        },
    };
    record.complete(path, result);
    Ok(result)
}

/// Evaluates the parts of a conjunction or a disjunction until one decides.
fn evaluate_children<'a>(
    children: &'a Vec<ResolvedPredicate>,
    conjunction: bool,
    path: &PredicatePath,
    values: &ConditionValues<'a>,
    dispositions: &ConditionDispositions,
    record: &mut EvaluationRecord,
) -> (outcome: Result<bool, EvaluationFailure>)
    ensures
        ({
            let (result, log) = children_evaluation(
                *children,
                0,
                conjunction,
                path.view(),
                values.inputs(),
                dispositions.recorded(),
                old(record)@,
            );
            &&& final(record)@ == log
            &&& match result {
                Ok(expected) => outcome matches Ok(actual) && actual == expected,
                Err(failure) => outcome matches Err(reported) && reported@ == failure,
            }
        }),
    decreases children, 1nat,
{
    let mut index: usize = 0;
    while index < children.len()
        invariant
            index <= children@.len(),
            children_evaluation(
                *children,
                0,
                conjunction,
                path.view(),
                values.inputs(),
                dispositions.recorded(),
                old(record)@,
            ) == children_evaluation(
                *children,
                index as int,
                conjunction,
                path.view(),
                values.inputs(),
                dispositions.recorded(),
                record@,
            ),
        decreases children@.len() - index,
    {
        let child_path: PredicatePath = path.indexed_child(conjunction, index);
        proof {
            assert(decreases_to!(*children => children@[index as int]));
        }
        let result: bool = evaluate_predicate(
            &children[index],
            &child_path,
            values,
            dispositions,
            record,
        )?;
        if result != conjunction {
            return Ok(result);
        }
        index = index + 1;
    }
    Ok(conjunction)
}

/// Evaluates a condition and tells which references it read, in order.
pub fn evaluate_recording<'a>(
    predicate: &'a ResolvedPredicate,
    values: &ConditionValues<'a>,
    dispositions: &ConditionDispositions,
) -> (outcome: (ConditionEvaluation, Vec<String>))
    ensures
        outcome.0@ == condition_outcome(*predicate, values.inputs(), dispositions.recorded()),
        texts(outcome.1@) == evaluation(
            *predicate,
            Seq::empty(),
            values.inputs(),
            dispositions.recorded(),
            EvaluationLog::empty(),
        ).1.accesses,
{
    let mut record = EvaluationRecord::new();
    let evaluation = match evaluate_predicate(
        predicate,
        &PredicatePath::root(),
        values,
        dispositions,
        &mut record,
    ) {
        Ok(true) => ConditionEvaluation::Passed,
        Ok(false) => ConditionEvaluation::False { evaluated_predicates: record.trace },
        Err(
            EvaluationFailure::PointerMissing { canonical_ref, pointer },
        ) => ConditionEvaluation::Failed { canonical_ref, pointer },
        Err(EvaluationFailure::Unavailable(input)) => ConditionEvaluation::Unavailable { input },
    };
    (evaluation, record.accesses)
}

/// Evaluates a condition.
pub fn evaluate<'a>(
    predicate: &'a ResolvedPredicate,
    values: &ConditionValues<'a>,
    dispositions: &ConditionDispositions,
) -> (outcome: ConditionEvaluation)
    ensures
        outcome@ == condition_outcome(*predicate, values.inputs(), dispositions.recorded()),
{
    evaluate_recording(predicate, values, dispositions).0
}

} // verus!

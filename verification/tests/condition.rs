use std::cmp::Ordering;

use workflow_engine::condition::{
    evaluate, evaluate_recording, operands_equal, ConditionDispositions, ConditionEvaluation,
    ConditionValues, EvaluatedPredicate, PredicatePath, ResolvedOperand, ResolvedPredicate,
    ResolvedSelector, SelectedOperand, TerminalDisposition, UnavailableConditionInput,
    WorkflowNode, WorkflowNodeRole,
};
use workflow_engine::decimal::{
    add_decimal_magnitudes, compare_decimal_magnitudes, subtract_decimal_magnitudes, SignedDecimal,
};
use workflow_engine::json::{json_semantically_equal, JsonValue};
use workflow_engine::number::{numbers_semantically_equal, NormalizedNumber};
use workflow_engine::pointer::{
    decode_pointer_token, parse_array_index, InvalidJsonPointer, JsonPointer, JsonSelection,
};

fn pointer(authored: &str) -> JsonPointer {
    JsonPointer::parse(authored).unwrap()
}

fn converted(value: &serde_json::Value) -> JsonValue {
    match value {
        serde_json::Value::Null => JsonValue::Null,
        serde_json::Value::Bool(value) => JsonValue::Bool(*value),
        serde_json::Value::Number(number) => JsonValue::Number(number.to_string()),
        serde_json::Value::String(text) => JsonValue::String(text.clone()),
        serde_json::Value::Array(items) => JsonValue::Array(items.iter().map(converted).collect()),
        serde_json::Value::Object(members) => JsonValue::Object(
            members
                .iter()
                .map(|(name, value)| (name.clone(), converted(value)))
                .collect(),
        ),
    }
}

fn json(source: &str) -> JsonValue {
    converted(&serde_json::from_str(source).unwrap())
}

fn node(id: &str) -> WorkflowNode {
    WorkflowNode {
        id: id.to_owned(),
        role: WorkflowNodeRole::Step,
    }
}

fn tokens(pointer: &JsonPointer) -> Vec<&str> {
    pointer.tokens().iter().map(|token| token.as_str()).collect()
}

#[test]
fn condition_pointer_round_trips_and_selects_strict_tokens() {
    let source = r#"{
        "a/b": {"m~n": 7},
        "": null,
        "0": "object zero",
        "01": "object leading zero",
        "array": [null, {"": true}]
    }"#;
    let document = json(source);
    for (authored, expected_tokens, selected) in [
        ("", Vec::<&str>::new(), Some(json(source))),
        ("/a~1b/m~0n", vec!["a/b", "m~n"], Some(json("7"))),
        ("/", vec![""], Some(JsonValue::Null)),
        ("/0", vec!["0"], Some(json("\"object zero\""))),
        ("/01", vec!["01"], Some(json("\"object leading zero\""))),
        ("/array/0", vec!["array", "0"], Some(JsonValue::Null)),
        ("/array/1/", vec!["array", "1", ""], Some(json("true"))),
        ("/array/01", vec!["array", "01"], None),
        ("/array/-", vec!["array", "-"], None),
        ("/array/2", vec!["array", "2"], None),
    ] {
        let parsed = pointer(authored);
        assert_eq!(parsed.authored(), authored);
        assert_eq!(tokens(&parsed), expected_tokens);
        match (parsed.select(&document), selected) {
            (JsonSelection::Selected(actual), Some(expected)) => assert_eq!(actual, &expected),
            (JsonSelection::Missing, None) => {}
            (actual, expected) => {
                panic!("selection {authored:?} = {actual:?}, expected {expected:?}")
            }
        }
    }

    let array = json(r#"["zero", "one"]"#);
    assert_eq!(
        pointer("/0").select(&array),
        JsonSelection::Selected(&json("\"zero\""))
    );
    for authored in ["/01", "/-", "/184467440737095516160"] {
        assert_eq!(pointer(authored).select(&array), JsonSelection::Missing);
    }
}

#[test]
fn condition_pointer_rejects_non_pointer_and_invalid_escapes() {
    for authored in ["x", "#", "#/a", "/~", "/~2", "/a/~x"] {
        assert_eq!(JsonPointer::parse(authored), Err(InvalidJsonPointer));
    }
    assert_eq!(tokens(&pointer("/~01")), ["~1"]);
}

#[test]
fn condition_equality_preserves_text_and_json_value_semantics() {
    for (left, right, equal) in [
        ("exact", "exact", true),
        ("Exact", "exact", false),
        ("line\n", "line\r\n", false),
        ("é", "e\u{301}", false),
        (" value", "value", false),
    ] {
        assert_eq!(
            operands_equal(SelectedOperand::Text(left), SelectedOperand::Text(right)),
            equal
        );
    }

    for (left, right, equal) in [
        (
            r#"{"a":1,"b":[true,null]}"#,
            r#"{"b":[true,null],"a":1.0}"#,
            true,
        ),
        (r#"[1,2]"#, r#"[2,1]"#, false),
        (r#""exact""#, r#""Exact""#, false),
        ("true", "1", false),
        ("null", "false", false),
        ("1", "1.0", true),
        ("1.0", "1e0", true),
        ("-0", "0e999999999999999999999999", true),
        ("1000e-3", "1", true),
        ("-1200.00e-2", "-12", true),
        (
            "1e999999999999999999999999",
            "10e999999999999999999999998",
            true,
        ),
        (
            "1e-999999999999999999999999",
            "10e-1000000000000000000000000",
            true,
        ),
        (
            "1e999999999999999999999999",
            "1e999999999999999999999998",
            false,
        ),
    ] {
        assert_eq!(
            json_semantically_equal(&json(left), &json(right)),
            equal,
            "{left} and {right}"
        );
    }

    let predicate = ResolvedPredicate::Equals([
        ResolvedOperand::text_literal("same"),
        ResolvedOperand::json_literal(json("\"same\"")),
    ]);
    assert!(matches!(
        evaluate(
            &predicate,
            &ConditionValues::default(),
            &ConditionDispositions::default()
        ),
        ConditionEvaluation::False { .. }
    ));
}

#[test]
fn condition_evaluation_is_left_to_right_and_completion_ordered() {
    let plan = json(r#"{"n":1}"#);
    let predicate = ResolvedPredicate::All(vec![
        ResolvedPredicate::Equals([
            ResolvedOperand::text_reference("imports.prompt"),
            ResolvedOperand::text_literal("yes"),
        ]),
        ResolvedPredicate::Any(vec![
            ResolvedPredicate::Exists(ResolvedSelector::new(
                "outputs.plan.result",
                pointer("/missing"),
            )),
            ResolvedPredicate::Not(Box::new(ResolvedPredicate::Equals([
                ResolvedOperand::json_reference("outputs.plan.result", Some(pointer("/n"))),
                ResolvedOperand::json_literal(json("2")),
            ]))),
        ]),
        ResolvedPredicate::Disposition {
            node: node("verify"),
            is: TerminalDisposition::Failed,
        },
        ResolvedPredicate::Equals([
            ResolvedOperand::json_reference("short.circuited", Some(pointer("/missing"))),
            ResolvedOperand::json_literal(JsonValue::Null),
        ]),
    ]);
    let mut values = ConditionValues::default();
    values.insert_text_value("imports.prompt", "yes");
    values.insert_json_value("outputs.plan.result", &plan);
    let mut dispositions = ConditionDispositions::default();
    dispositions.insert(node("verify"), TerminalDisposition::Succeeded);

    let (evaluation, accessed) = evaluate_recording(&predicate, &values, &dispositions);
    let ConditionEvaluation::False {
        evaluated_predicates,
    } = evaluation
    else {
        panic!("the false root should retain its trace");
    };
    assert_eq!(
        evaluated_predicates
            .iter()
            .map(|entry| (entry.path.as_str(), entry.result))
            .collect::<Vec<_>>(),
        [
            ("/all/0", true),
            ("/all/1/any/0", false),
            ("/all/1/any/1/not", false),
            ("/all/1/any/1", true),
            ("/all/1", true),
            ("/all/2", false),
            ("", false),
        ]
    );
    assert_eq!(
        accessed,
        [
            "imports.prompt",
            "outputs.plan.result",
            "outputs.plan.result"
        ]
    );
}

#[test]
fn condition_evaluation_short_circuits_without_retaining_a_true_trace() {
    let predicate = ResolvedPredicate::Any(vec![
        ResolvedPredicate::Equals([
            ResolvedOperand::text_reference("imports.prompt"),
            ResolvedOperand::text_literal("yes"),
        ]),
        ResolvedPredicate::Equals([
            ResolvedOperand::json_reference("unevaluated", Some(pointer("/missing"))),
            ResolvedOperand::json_literal(JsonValue::Null),
        ]),
    ]);
    let mut values = ConditionValues::default();
    values.insert_text_value("imports.prompt", "yes");

    let (evaluation, accessed) =
        evaluate_recording(&predicate, &values, &ConditionDispositions::default());
    assert_eq!(evaluation, ConditionEvaluation::Passed);
    assert_eq!(accessed, ["imports.prompt"]);
}

#[test]
fn condition_evaluation_missing_pointer_and_unavailable_source_are_distinct() {
    let plan = json(r#"{"present":null}"#);
    let missing = ResolvedPredicate::Equals([
        ResolvedOperand::json_reference("outputs.plan.result", Some(pointer("/missing~01"))),
        ResolvedOperand::json_reference("unevaluated", Some(pointer("/also-missing"))),
    ]);
    let unavailable = ResolvedPredicate::Exists(ResolvedSelector::new(
        "outputs.unavailable.result",
        pointer("/present"),
    ));
    let exists = ResolvedPredicate::Exists(ResolvedSelector::new(
        "outputs.plan.result",
        pointer("/present"),
    ));
    let mut values = ConditionValues::default();
    values.insert_json_value("outputs.plan.result", &plan);

    let (evaluation, accessed) =
        evaluate_recording(&missing, &values, &ConditionDispositions::default());
    assert_eq!(
        evaluation,
        ConditionEvaluation::Failed {
            canonical_ref: "outputs.plan.result".to_owned(),
            pointer: "/missing~01".to_owned(),
        }
    );
    assert_eq!(accessed, ["outputs.plan.result"]);

    assert_eq!(
        evaluate(&unavailable, &values, &ConditionDispositions::default()),
        ConditionEvaluation::Unavailable {
            input: UnavailableConditionInput::Value {
                canonical_ref: "outputs.unavailable.result".to_owned()
            }
        }
    );
    assert_eq!(
        evaluate(&exists, &values, &ConditionDispositions::default()),
        ConditionEvaluation::Passed
    );
}

fn equal(expected: &str) -> ResolvedPredicate {
    ResolvedPredicate::Equals([
        ResolvedOperand::text_reference("imports.prompt"),
        ResolvedOperand::text_literal(expected),
    ])
}

#[test]
fn condition_evaluation_retains_the_complete_accepted_maximum_trace() {
    let mut children = Vec::new();
    for _ in 0..62 {
        children.push(ResolvedPredicate::All(vec![
            equal("yes"),
            equal("yes"),
            equal("yes"),
        ]));
    }
    children.push(ResolvedPredicate::All(vec![
        equal("yes"),
        equal("yes"),
        equal("yes"),
        equal("yes"),
        equal("yes"),
    ]));
    children.push(equal("no"));
    let predicate = ResolvedPredicate::All(children);
    let mut values = ConditionValues::default();
    values.insert_text_value("imports.prompt", "yes");

    let ConditionEvaluation::False {
        evaluated_predicates,
    } = evaluate(&predicate, &values, &ConditionDispositions::default())
    else {
        panic!("the maximal accepted tree should complete false");
    };
    assert_eq!(evaluated_predicates.len(), 256);
    assert_eq!(
        evaluated_predicates.last(),
        Some(&EvaluatedPredicate {
            path: PredicatePath::root(),
            result: false,
        })
    );
}

#[test]
fn condition_evaluation_supports_every_terminal_disposition_without_source_detail() {
    for disposition in [
        TerminalDisposition::Succeeded,
        TerminalDisposition::Failed,
        TerminalDisposition::Skipped,
        TerminalDisposition::Blocked,
        TerminalDisposition::NotRun,
        TerminalDisposition::Cancelled,
    ] {
        let mut dispositions = ConditionDispositions::default();
        dispositions.insert(node("target"), disposition);
        let predicate = ResolvedPredicate::Disposition {
            node: node("target"),
            is: disposition,
        };
        assert_eq!(
            evaluate(&predicate, &ConditionValues::default(), &dispositions),
            ConditionEvaluation::Passed
        );
    }
}

#[test]
fn an_unknown_disposition_is_unavailable() {
    let predicate = ResolvedPredicate::Not(Box::new(ResolvedPredicate::Disposition {
        node: node("target"),
        is: TerminalDisposition::Succeeded,
    }));
    assert_eq!(
        evaluate(
            &predicate,
            &ConditionValues::default(),
            &ConditionDispositions::default()
        ),
        ConditionEvaluation::Unavailable {
            input: UnavailableConditionInput::Disposition {
                node: node("target")
            }
        }
    );
}

#[test]
fn a_reference_of_the_other_kind_is_unavailable() {
    let predicate = ResolvedPredicate::Equals([
        ResolvedOperand::json_reference("imports.prompt", None),
        ResolvedOperand::json_literal(JsonValue::Null),
    ]);
    let mut values = ConditionValues::default();
    values.insert_text_value("imports.prompt", "yes");
    assert!(matches!(
        evaluate(&predicate, &values, &ConditionDispositions::default()),
        ConditionEvaluation::Unavailable { .. }
    ));
}

#[test]
fn later_values_replace_earlier_ones() {
    let predicate = equal("no");
    let mut values = ConditionValues::default();
    values.insert_text_value("imports.prompt", "yes");
    values.insert_text_value("imports.prompt", "no");
    assert_eq!(
        evaluate(&predicate, &values, &ConditionDispositions::default()),
        ConditionEvaluation::Passed
    );
}

#[test]
fn empty_connectives_have_their_neutral_result() {
    let values = ConditionValues::default();
    let dispositions = ConditionDispositions::default();
    assert_eq!(
        evaluate(&ResolvedPredicate::All(Vec::new()), &values, &dispositions),
        ConditionEvaluation::Passed
    );
    assert_eq!(
        evaluate(&ResolvedPredicate::Any(Vec::new()), &values, &dispositions),
        ConditionEvaluation::False {
            evaluated_predicates: vec![EvaluatedPredicate {
                path: PredicatePath::root(),
                result: false,
            }],
        }
    );
}

#[test]
fn predicate_paths_grow_by_segments() {
    let path = PredicatePath::root().indexed_child(true, 12).child("not");
    assert_eq!(path.as_str(), "/all/12/not");
    assert_eq!(path.indexed_child(false, 0).as_str(), "/all/12/not/any/0");
}

#[test]
fn pointer_tokens_decode_their_escapes() {
    let token: Vec<char> = "a~1b~0c".chars().collect();
    assert_eq!(decode_pointer_token(&token), Ok("a/b~c".to_owned()));
    let open: Vec<char> = "a~".chars().collect();
    assert_eq!(decode_pointer_token(&open), Err(InvalidJsonPointer));
    let other: Vec<char> = "~2".chars().collect();
    assert_eq!(decode_pointer_token(&other), Err(InvalidJsonPointer));
}

#[test]
fn array_indices_have_no_leading_zero() {
    assert_eq!(parse_array_index("0"), Some(0));
    assert_eq!(parse_array_index("10"), Some(10));
    assert_eq!(parse_array_index("18446744073709551615"), Some(usize::MAX));
    for token in ["", "00", "01", "-", "+1", "1a", "18446744073709551616"] {
        assert_eq!(parse_array_index(token), None, "{token}");
    }
}

#[test]
fn selections_compose() {
    let document = json(r#"{"a":{"b":[1,2]}}"#);
    let JsonSelection::Selected(middle) = pointer("/a").select(&document) else {
        panic!("the member is there");
    };
    assert_eq!(
        pointer("/b/1").select(middle),
        pointer("/a/b/1").select(&document)
    );
}

#[test]
fn decimal_magnitudes_add_subtract_and_compare() {
    assert_eq!(add_decimal_magnitudes(&[9, 9], &[1]), [1, 0, 0]);
    assert_eq!(subtract_decimal_magnitudes(&[1, 0, 0], &[1]), [9, 9]);
    assert_eq!(compare_decimal_magnitudes(&[1, 0], &[9]), Ordering::Greater);
    assert_eq!(compare_decimal_magnitudes(&[1, 0], &[1, 1]), Ordering::Less);
    assert_eq!(compare_decimal_magnitudes(&[4, 2], &[4, 2]), Ordering::Equal);
    assert_eq!(add_decimal_magnitudes(&[], &[]), Vec::<u8>::new());
    assert_eq!(add_decimal_magnitudes(&[0, 1], &[2]), [0, 3]);
    assert_eq!(subtract_decimal_magnitudes(&[], &[]), Vec::<u8>::new());
    assert_eq!(subtract_decimal_magnitudes(&[0, 0, 9], &[7]), [2]);
    assert_eq!(subtract_decimal_magnitudes(&[9], &[0, 7]), [2]);
    assert_eq!(compare_decimal_magnitudes(&[0, 1], &[9]), Ordering::Greater);
}

#[test]
fn signed_decimals_sum() {
    let mut sum = SignedDecimal::parse(b"-12").unwrap();
    sum.add(SignedDecimal::parse(b"20").unwrap());
    assert!(sum.same(&SignedDecimal::parse(b"8").unwrap()));
    sum.add_unsigned(8, true);
    assert!(sum.same(&SignedDecimal::zero()));
    assert!(SignedDecimal::parse(b"").is_none());
    assert!(SignedDecimal::parse(b"1x").is_none());
}

#[test]
fn numbers_are_the_same_by_value() {
    let left = NormalizedNumber::parse("12.50e1").unwrap();
    let right = NormalizedNumber::parse("125").unwrap();
    assert!(left.same(&right));
    assert_eq!(left.negative, right.negative);
    assert_eq!(left.significant_digits, b"125");
    assert_eq!(left.significant_digits, right.significant_digits);
    assert!(left.decimal_exponent.same(&right.decimal_exponent));
    assert!(numbers_semantically_equal("100", "1e2"));
    assert!(!numbers_semantically_equal("100", "1e3"));
    assert!(!numbers_semantically_equal("1", "-1"));
}

#[test]
fn json_equality_is_an_equivalence_on_these_values() {
    let values = [
        json(r#"{"a":[1,{"b":null}]}"#),
        json(r#"{"a":[1.0,{"b":null}]}"#),
        json(r#"{"a":[10e-1,{"b":null}]}"#),
    ];
    for left in &values {
        for right in &values {
            assert!(json_semantically_equal(left, right));
            assert!(json_semantically_equal(right, left));
        }
    }
    assert!(!json_semantically_equal(&values[0], &json("{}")));
    assert!(!json_semantically_equal(
        &json(r#"{"a":1}"#),
        &json(r#"{"b":1}"#)
    ));
}

#[test]
fn review_condition_trace_fits_source_bound_transition_capacity() {
    let chain = |expected: &str| -> ResolvedPredicate {
        let mut predicate = equal(expected);
        for _ in 0..14 {
            predicate = ResolvedPredicate::Not(Box::new(predicate));
        }
        predicate
    };
    let predicates = (0..17)
        .map(|index| chain(if index == 16 { "no" } else { "yes" }))
        .collect();
    let root = ResolvedPredicate::All(predicates);
    let mut values = ConditionValues::default();
    values.insert_text_value("imports.prompt", "yes");
    let ConditionEvaluation::False {
        evaluated_predicates,
    } = evaluate(&root, &values, &ConditionDispositions::default())
    else {
        panic!("the final child should make the root false");
    };
    assert_eq!(evaluated_predicates.len(), 256);
}

#[test]
fn pointers_are_their_escaped_tokens() {
    for authored in ["", "/", "/a~1b/m~0n", "/~01/~1"] {
        let parsed = pointer(authored);
        let written: String = tokens(&parsed)
            .iter()
            .map(|token| format!("/{}", token.replace('~', "~0").replace('/', "~1")))
            .collect();
        assert_eq!(written, authored);
    }
}

use stepfn_core::definition::{Catch, Choice, Type};
use stepfn_core::envelope::StateMachineDescriptor;
use stepfn_core::error::TranslateError;
use stepfn_core::json::{Json, JsonNumber};
use stepfn_core::machine::{find_state, StateMachineDefinition};
use stepfn_core::step::Step;
use stepfn_core::validate::{DanglingReference, ReferenceKind};

fn tree(text: &str) -> Json {
    Json::from_text(text).unwrap()
}

fn schema(object: &str, field: &str) -> TranslateError {
    TranslateError::SchemaError { object: object.to_string(), field: field.to_string() }
}

fn plain_step(step_type: Type) -> Step {
    Step {
        step_type,
        end: None,
        next: None,
        resource: None,
        result_path: None,
        choices: None,
        catch: None,
        default: None,
    }
}

const ORDER_FLOW: &str = r#"{
  "Comment": "Process an order",
  "StartAt": "Check",
  "States": {
    "Check": {
      "Type": "Choice",
      "Choices": [
        {"Variable": "$.paid", "BooleanEquals": true, "Next": "Ship"},
        {"Variable": "$.paid", "IsPresent": true, "Next": "Refuse"}
      ],
      "Default": "Refuse"
    },
    "Refuse": {"Type": "Fail"},
    "Ship": {
      "Type": "Task",
      "Resource": "arn:aws:lambda:us-east-1:123456789012:function:ship",
      "ResultPath": "$.shipment",
      "Catch": [
        {"ErrorEquals": ["States.Timeout", "States.TaskFailed"], "Next": "Refuse", "ResultPath": "$.error"}
      ],
      "Next": "Done",
      "TimeoutSeconds": 30
    },
    "Done": {"Type": "Succeed", "End": true}
  },
  "Version": "1.0"
}"#;

#[test]
fn a_definition_is_read_field_for_field() {
    let definition = StateMachineDefinition::parse(ORDER_FLOW).unwrap();
    assert_eq!(definition.comment, "Process an order");
    assert_eq!(definition.start_at, "Check");
    let names: Vec<&str> = definition.states.iter().map(|named| named.0.as_str()).collect();
    assert_eq!(names, vec!["Check", "Done", "Refuse", "Ship"]);

    let check = definition.state(&"Check".to_string()).unwrap();
    assert_eq!(check.step_type, Type::Choice);
    assert_eq!(check.default, Some("Refuse".to_string()));
    assert_eq!(
        check.choices,
        Some(vec![
            Choice {
                variable: "$.paid".to_string(),
                is_present: None,
                bool_equals: Some(true),
                next: Some("Ship".to_string()),
            },
            Choice {
                variable: "$.paid".to_string(),
                is_present: Some(true),
                bool_equals: None,
                next: Some("Refuse".to_string()),
            },
        ])
    );

    let ship = definition.state(&"Ship".to_string()).unwrap();
    assert_eq!(ship.step_type, Type::Task);
    assert_eq!(
        ship.resource,
        Some(Json::Text("arn:aws:lambda:us-east-1:123456789012:function:ship".to_string()))
    );
    assert_eq!(ship.result_path, Some("$.shipment".to_string()));
    assert_eq!(ship.next, Some("Done".to_string()));
    assert_eq!(
        ship.catch,
        Some(vec![Catch {
            error_equals: vec!["States.Timeout".to_string(), "States.TaskFailed".to_string()],
            next: "Refuse".to_string(),
            result_path: "$.error".to_string(),
        }])
    );

    let done = definition.state(&"Done".to_string()).unwrap();
    assert_eq!(done.end, Some(true));
    assert_eq!(done.next, None);
    assert!(definition.state(&"Missing".to_string()).is_none());
    assert!(definition.validate().is_empty());
}

#[test]
fn a_definition_written_and_read_again_is_the_same() {
    let definition = StateMachineDefinition::parse(ORDER_FLOW).unwrap();
    let again = StateMachineDefinition::from_json(&definition.to_json()).unwrap();
    assert_eq!(again, definition);
    let text = definition.print().unwrap();
    assert_eq!(StateMachineDefinition::parse(&text).unwrap(), definition);
}

#[test]
fn a_definition_built_by_hand_round_trips_in_its_own_order() {
    let mut task = plain_step(Type::Task);
    task.next = Some("a".to_string());
    task.resource = Some(Json::Object(vec![
        ("z".to_string(), Json::Number(JsonNumber::Negative(-3))),
        ("a".to_string(), Json::Array(vec![Json::Bool(false), Json::Null])),
    ]));
    let mut end = plain_step(Type::Pass);
    end.end = Some(true);
    let definition = StateMachineDefinition {
        comment: String::new(),
        start_at: "b".to_string(),
        states: vec![("b".to_string(), task), ("a".to_string(), end)],
    };
    let again = StateMachineDefinition::from_json(&definition.to_json()).unwrap();
    assert_eq!(again, definition);
}

#[test]
fn a_definition_read_from_its_text_is_the_same_mapping() {
    let mut task = plain_step(Type::Task);
    task.next = Some("a".to_string());
    let mut end = plain_step(Type::Pass);
    end.end = Some(true);
    let definition = StateMachineDefinition {
        comment: "c".to_string(),
        start_at: "b".to_string(),
        states: vec![("b".to_string(), task), ("a".to_string(), end)],
    };
    let again = StateMachineDefinition::parse(&definition.print().unwrap()).unwrap();
    assert_eq!(again.comment, definition.comment);
    assert_eq!(again.start_at, definition.start_at);
    let names: Vec<&str> = again.states.iter().map(|named| named.0.as_str()).collect();
    assert_eq!(names, vec!["a", "b"]);
    assert_eq!(again.states.len(), definition.states.len());
    for (name, step) in &definition.states {
        assert_eq!(again.state(name), Some(step));
    }
    for (name, step) in &again.states {
        assert_eq!(definition.state(name), Some(step));
    }
}

#[test]
fn absent_members_are_written_as_null() {
    let written = plain_step(Type::Wait).to_json().to_text().unwrap();
    assert_eq!(
        written,
        r#"{"Catch":null,"Choices":null,"Default":null,"End":null,"Next":null,"Resource":null,"ResultPath":null,"Type":"Wait"}"#
    );
}

#[test]
fn a_null_resource_is_an_absent_resource() {
    let step = Step::from_json(&tree(r#"{"Type":"Task","Resource":null}"#)).unwrap();
    assert_eq!(step.resource, None);
    let step = Step::from_json(&tree(r#"{"Type":"Task","Resource":{"a":[1,2.5]}}"#)).unwrap();
    assert_eq!(
        step.resource,
        Some(Json::Object(vec![(
            "a".to_string(),
            Json::Array(vec![
                Json::Number(JsonNumber::Unsigned(1)),
                Json::Number(JsonNumber::Real("2.5".to_string())),
            ])
        )]))
    );
}

#[test]
fn a_kind_outside_the_closed_set_is_an_unknown_variant() {
    let refused = Step::from_json(&tree(r#"{"Type": "Retry"}"#));
    assert_eq!(refused, Err(TranslateError::UnknownVariant { found: "Retry".to_string() }));
    assert_eq!(
        Type::from_name("task"),
        Err(TranslateError::UnknownVariant { found: "task".to_string() })
    );
    assert_eq!(Type::from_name(""), Err(TranslateError::UnknownVariant { found: String::new() }));
}

#[test]
fn all_eight_kinds_are_read() {
    let kinds = [
        ("Task", Type::Task),
        ("Pass", Type::Pass),
        ("Choice", Type::Choice),
        ("Fail", Type::Fail),
        ("Succeed", Type::Succeed),
        ("Wait", Type::Wait),
        ("Map", Type::MapState),
        ("Parallel", Type::Parallel),
    ];
    for (name, kind) in kinds {
        let step = Step::from_json(&tree(&format!(r#"{{"Type": "{}"}}"#, name))).unwrap();
        assert_eq!(step, plain_step(kind));
        assert_eq!(Type::from_name(name), Ok(kind));
        assert_eq!(kind.name(), name);
    }
}

#[test]
fn missing_members_are_schema_errors_that_name_them() {
    assert_eq!(
        StateMachineDefinition::parse(r#"{"StartAt":"a","States":{}}"#),
        Err(schema("StateMachineDefinition", "Comment"))
    );
    assert_eq!(
        StateMachineDefinition::parse(r#"{"Comment":"","States":{}}"#),
        Err(schema("StateMachineDefinition", "StartAt"))
    );
    assert_eq!(
        StateMachineDefinition::parse(r#"{"Comment":"","StartAt":"a"}"#),
        Err(schema("StateMachineDefinition", "States"))
    );
    assert_eq!(
        StateMachineDefinition::parse(r#"{"Comment":"","StartAt":"a","States":{"a":{}}}"#),
        Err(schema("Step", "Type"))
    );
    assert_eq!(Step::from_json(&tree(r#"{"End": true}"#)), Err(schema("Step", "Type")));
    assert_eq!(Choice::from_json(&tree(r#"{"Next":"a"}"#)), Err(schema("Choice", "Variable")));
    assert_eq!(
        Catch::from_json(&tree(r#"{"Next":"a","ResultPath":"$"}"#)),
        Err(schema("Catch", "ErrorEquals"))
    );
    assert_eq!(
        Catch::from_json(&tree(r#"{"ErrorEquals":[],"ResultPath":"$"}"#)),
        Err(schema("Catch", "Next"))
    );
    assert_eq!(
        Catch::from_json(&tree(r#"{"ErrorEquals":[],"Next":"a"}"#)),
        Err(schema("Catch", "ResultPath"))
    );
}

#[test]
fn members_of_the_wrong_kind_are_schema_errors() {
    assert_eq!(
        StateMachineDefinition::parse(r#"{"Comment":"","StartAt":5,"States":{}}"#),
        Err(schema("StateMachineDefinition", "StartAt"))
    );
    assert_eq!(
        StateMachineDefinition::parse(r#"{"Comment":"","StartAt":"a","States":[]}"#),
        Err(schema("StateMachineDefinition", "States"))
    );
    assert_eq!(StateMachineDefinition::parse("[]"), Err(schema("StateMachineDefinition", "Comment")));
    assert_eq!(Step::from_json(&tree(r#"{"Type": 5}"#)), Err(schema("Step", "Type")));
    assert_eq!(Step::from_json(&tree(r#"{"Type": null}"#)), Err(schema("Step", "Type")));
    assert_eq!(Step::from_json(&tree(r#"{"Type":"Pass","End":"yes"}"#)), Err(schema("Step", "End")));
    assert_eq!(Step::from_json(&tree(r#"{"Type":"Pass","Next":1}"#)), Err(schema("Step", "Next")));
    assert_eq!(
        Step::from_json(&tree(r#"{"Type":"Pass","ResultPath":[]}"#)),
        Err(schema("Step", "ResultPath"))
    );
    assert_eq!(
        Step::from_json(&tree(r#"{"Type":"Pass","Choices":{}}"#)),
        Err(schema("Step", "Choices"))
    );
    assert_eq!(Step::from_json(&tree(r#"{"Type":"Pass","Catch":1}"#)), Err(schema("Step", "Catch")));
    assert_eq!(
        Step::from_json(&tree(r#"{"Type":"Pass","Default":false}"#)),
        Err(schema("Step", "Default"))
    );
    assert_eq!(
        Step::from_json(&tree(r#"{"Type":"Choice","Choices":[{"Variable":"$.a"},{"Variable":1}]}"#)),
        Err(schema("Choice", "Variable"))
    );
    assert_eq!(
        Catch::from_json(&tree(r#"{"ErrorEquals":["a",1],"Next":"a","ResultPath":"$"}"#)),
        Err(schema("Catch", "ErrorEquals"))
    );
    assert_eq!(
        Choice::from_json(&tree(r#"{"Variable":"$.a","IsPresent":"true"}"#)),
        Err(schema("Choice", "IsPresent"))
    );
    assert_eq!(
        Choice::from_json(&tree(r#"{"Variable":"$.a","BooleanEquals":0}"#)),
        Err(schema("Choice", "BooleanEquals"))
    );
}

#[test]
fn the_first_failure_in_the_order_of_the_members_is_reported() {
    assert_eq!(
        Step::from_json(&tree(r#"{"Type":"Retry","End":"yes"}"#)),
        Err(TranslateError::UnknownVariant { found: "Retry".to_string() })
    );
    assert_eq!(
        Step::from_json(&tree(r#"{"Type":"Pass","Default":1,"End":"yes"}"#)),
        Err(schema("Step", "End"))
    );
}

#[test]
fn text_that_is_no_json_is_refused() {
    let refused = StateMachineDefinition::parse("{\"Comment\":");
    assert!(matches!(refused, Err(TranslateError::InvalidJson { .. })));
    let descriptor = StateMachineDescriptor {
        state_machine_arn: "arn".to_string(),
        name: "n".to_string(),
        definition: "not json".to_string(),
    };
    assert!(matches!(descriptor.parse_definition(), Err(TranslateError::InvalidJson { .. })));
}

#[test]
fn a_state_name_that_occurs_twice_is_refused() {
    let twice = Json::Object(vec![
        ("Comment".to_string(), Json::Text(String::new())),
        ("StartAt".to_string(), Json::Text("a".to_string())),
        (
            "States".to_string(),
            Json::Object(vec![
                ("a".to_string(), tree(r#"{"Type":"Pass"}"#)),
                ("b".to_string(), tree(r#"{"Type":"Pass"}"#)),
                ("a".to_string(), tree(r#"{"Type":"Fail"}"#)),
            ]),
        ),
    ]);
    assert_eq!(StateMachineDefinition::from_json(&twice), Err(schema("States", "a")));
}

#[test]
fn both_branch_rules_stay_in_the_order_of_the_document() {
    let text = r#"{"Type":"Choice","Choices":[
        {"Variable":"$.x","IsPresent":true,"Next":"first"},
        {"Variable":"$.x","IsPresent":true,"Next":"second"},
        {"Variable":"$.x","IsPresent":true,"Next":"first"}
    ]}"#;
    let step = Step::from_json(&tree(text)).unwrap();
    let targets: Vec<Option<String>> =
        step.choices.as_ref().unwrap().iter().map(|choice| choice.next.clone()).collect();
    assert_eq!(
        targets,
        vec![Some("first".to_string()), Some("second".to_string()), Some("first".to_string())]
    );
    let again = Step::from_json(&step.to_json()).unwrap();
    assert_eq!(again, step);
}

#[test]
fn a_missing_entry_state_parses_and_is_found_by_validate() {
    let text = r#"{"Comment":"","StartAt":"Nowhere","States":{"a":{"Type":"Succeed"}}}"#;
    let definition = StateMachineDefinition::parse(text).unwrap();
    assert_eq!(
        definition.validate(),
        vec![DanglingReference {
            state: String::new(),
            kind: ReferenceKind::StartAt,
            target: "Nowhere".to_string(),
        }]
    );
}

#[test]
fn every_dangling_reference_is_listed_in_order() {
    let text = r#"{"Comment":"","StartAt":"a","States":{
        "a":{"Type":"Choice","Next":"n","Default":"d","Choices":[
            {"Variable":"$.x","Next":"b"},
            {"Variable":"$.x"},
            {"Variable":"$.x","Next":"c1"}
        ],"Catch":[
            {"ErrorEquals":[],"Next":"k0","ResultPath":"$"},
            {"ErrorEquals":[],"Next":"a","ResultPath":"$"}
        ]},
        "b":{"Type":"Pass","Next":"a"}
    }}"#;
    let definition = StateMachineDefinition::parse(text).unwrap();
    let found = |kind: ReferenceKind, target: &str| DanglingReference {
        state: "a".to_string(),
        kind,
        target: target.to_string(),
    };
    assert_eq!(
        definition.validate(),
        vec![
            found(ReferenceKind::Next, "n"),
            found(ReferenceKind::Choice(2), "c1"),
            found(ReferenceKind::Catch(0), "k0"),
            found(ReferenceKind::Default, "d"),
        ]
    );
}

#[test]
fn an_empty_definition_has_only_a_dangling_entry_state() {
    let definition = StateMachineDefinition::parse(r#"{"Comment":"","StartAt":"","States":{}}"#).unwrap();
    assert_eq!(definition.states.len(), 0);
    assert_eq!(definition.validate().len(), 1);
}

#[test]
fn find_state_gives_the_place_of_a_name() {
    let states = vec![
        ("b".to_string(), plain_step(Type::Pass)),
        ("a".to_string(), plain_step(Type::Fail)),
    ];
    assert_eq!(find_state(&states, &"a".to_string()), Some(1));
    assert_eq!(find_state(&states, &"b".to_string()), Some(0));
    assert_eq!(find_state(&states, &"c".to_string()), None);
    assert_eq!(find_state(&Vec::new(), &"a".to_string()), None);
}

#[test]
fn a_descriptor_carries_the_definition_as_text() {
    let definition = StateMachineDefinition::parse(ORDER_FLOW).unwrap();
    let descriptor =
        StateMachineDescriptor::with_definition("arn:1".to_string(), "orders".to_string(), &definition)
            .unwrap();
    assert_eq!(descriptor.state_machine_arn, "arn:1");
    assert_eq!(descriptor.name, "orders");
    assert_eq!(descriptor.parse_definition().unwrap(), definition);

    let written = descriptor.to_json();
    assert_eq!(StateMachineDescriptor::from_json(&written).unwrap(), descriptor);
    assert_eq!(
        StateMachineDescriptor::from_json(&tree(r#"{"name":"n","definition":"{}"}"#)),
        Err(schema("StateMachineDescriptor", "stateMachineArn"))
    );
}

#[test]
fn a_resource_with_a_number_that_cannot_be_written_gives_no_text() {
    let mut step = plain_step(Type::Task);
    step.resource = Some(Json::Number(JsonNumber::Real("one".to_string())));
    let definition = StateMachineDefinition {
        comment: String::new(),
        start_at: "a".to_string(),
        states: vec![("a".to_string(), step)],
    };
    assert_eq!(definition.print(), None);
    assert_eq!(
        StateMachineDescriptor::with_definition(String::new(), String::new(), &definition),
        None
    );
}

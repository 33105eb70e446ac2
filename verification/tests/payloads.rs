use stepfn_core::definition::{Catch, Type};
use stepfn_core::details::{ExecutionStartedEventDetails, ExecutionSucceededEventDetails};
use stepfn_core::history::Event;
use stepfn_core::json::Json;
use stepfn_core::payload::Payload;
use stepfn_core::step::Step;

fn event(text: &str) -> Event {
    Event::from_json(&Json::from_text(text).unwrap()).unwrap()
}

#[test]
fn the_kind_selects_the_payload() {
    let started = event(
        r#"{"timestamp":0,"type":"ExecutionStarted","id":1,
            "executionStartedEventDetails":{"input":"{}","roleArn":"arn:role"}}"#,
    );
    assert_eq!(
        started.payload(),
        Payload::ExecutionStarted(&ExecutionStartedEventDetails {
            input: "{}".to_string(),
            role_arn: "arn:role".to_string(),
        })
    );
    assert!(started.is_consistent());

    let succeeded = event(
        r#"{"timestamp":0,"type":"ExecutionSucceeded","id":2,
            "executionSucceededEventDetails":{"output":"done"}}"#,
    );
    assert_eq!(
        succeeded.payload(),
        Payload::ExecutionSucceeded(&ExecutionSucceededEventDetails { output: "done".to_string() })
    );
    assert!(succeeded.is_consistent());
}

#[test]
fn every_kind_with_a_payload_selects_its_own() {
    let all = r#""executionStartedEventDetails":{"input":"a","roleArn":"b"},
        "stateEnteredEventDetails":{"name":"a","input":"b"},
        "stateExitedEventDetails":{"name":"a","output":"b"},
        "lambdaFunctionScheduledEventDetails":{"resource":"a","input":"b"},
        "lambdaFunctionFailedEventDetails":{"error":"a","cause":"b"},
        "executionSucceededEventDetails":{"output":"a"}"#;
    let of_kind = |kind: &str| event(&format!(r#"{{"timestamp":0,"type":"{}","id":1,{}}}"#, kind, all));
    assert!(matches!(of_kind("ExecutionStarted").payload(), Payload::ExecutionStarted(_)));
    assert!(matches!(of_kind("StateEntered").payload(), Payload::StateEntered(_)));
    assert!(matches!(of_kind("StateExited").payload(), Payload::StateExited(_)));
    assert!(matches!(of_kind("LambdaFunctionScheduled").payload(), Payload::LambdaFunctionScheduled(_)));
    assert!(matches!(of_kind("LambdaFunctionFailed").payload(), Payload::LambdaFunctionFailed(_)));
    assert!(matches!(of_kind("ExecutionSucceeded").payload(), Payload::ExecutionSucceeded(_)));
    assert_eq!(of_kind("LambdaFunctionSucceeded").payload(), Payload::Empty);
    assert!(!of_kind("ExecutionStarted").is_consistent());
}

#[test]
fn an_event_without_its_payload_is_empty_and_consistent() {
    let failed = event(r#"{"timestamp":0,"type":"LambdaFunctionFailed","id":3}"#);
    assert_eq!(failed.payload(), Payload::Empty);
    assert!(failed.is_consistent());
    let other = event(r#"{"timestamp":0,"type":"TaskStateEntered","id":4}"#);
    assert_eq!(other.payload(), Payload::Empty);
    assert!(other.is_consistent());
}

#[test]
fn a_payload_of_another_kind_is_not_selected() {
    let odd = event(
        r#"{"timestamp":0,"type":"StateEntered","id":5,
            "executionSucceededEventDetails":{"output":"done"}}"#,
    );
    assert_eq!(odd.payload(), Payload::Empty);
    assert!(!odd.is_consistent());
}

fn route(errors: &[&str], next: &str) -> Catch {
    Catch {
        error_equals: errors.iter().map(|e| e.to_string()).collect(),
        next: next.to_string(),
        result_path: "$.error".to_string(),
    }
}

#[test]
fn the_first_route_that_names_the_error_handles_it() {
    let step = Step {
        step_type: Type::Task,
        end: None,
        next: None,
        resource: None,
        result_path: None,
        choices: None,
        catch: Some(vec![
            route(&["Timeout"], "a"),
            route(&["Denied", "Failed"], "b"),
            route(&["Failed", "Timeout"], "c"),
            route(&[], "d"),
        ]),
        default: None,
    };
    assert_eq!(step.catch_for(&"Timeout".to_string()).unwrap().next, "a");
    assert_eq!(step.catch_for(&"Failed".to_string()).unwrap().next, "b");
    assert_eq!(step.catch_for(&"Denied".to_string()).unwrap().next, "b");
    assert_eq!(step.catch_for(&"Other".to_string()), None);
    assert_eq!(step.catch_for(&String::new()), None);
}

#[test]
fn a_state_without_routes_handles_nothing() {
    let mut step = Step {
        step_type: Type::Task,
        end: None,
        next: None,
        resource: None,
        result_path: None,
        choices: None,
        catch: None,
        default: None,
    };
    assert_eq!(step.catch_for(&"Timeout".to_string()), None);
    step.catch = Some(Vec::new());
    assert_eq!(step.catch_for(&"Timeout".to_string()), None);
}

#[test]
fn a_route_applies_to_the_errors_it_names() {
    let named = route(&["A", "B"], "x");
    assert!(named.applies_to(&"A".to_string()));
    assert!(named.applies_to(&"B".to_string()));
    assert!(!named.applies_to(&"a".to_string()));
    assert!(!route(&[], "x").applies_to(&"A".to_string()));
}

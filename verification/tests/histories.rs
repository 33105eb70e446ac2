use stepfn_core::details::{
    ExecutionStartedEventDetails, ExecutionSucceededEventDetails, LambdaFunctionFailedEventDetails,
    LambdaFunctionScheduledEventDetails, StateEnteredEventDetails, StateExitedEventDetails,
};
use stepfn_core::envelope::{
    EventResponse, Executions, ExecutionsResponse, ServerError, StateMachine, StateMachineResponse,
};
use stepfn_core::error::TranslateError;
use stepfn_core::history::{check_order, events_from, Event};
use stepfn_core::json::Json;

fn tree(text: &str) -> Json {
    Json::from_text(text).unwrap()
}

fn schema(object: &str, field: &str) -> TranslateError {
    TranslateError::SchemaError { object: object.to_string(), field: field.to_string() }
}

fn bare_event(id: u64, kind: &str) -> Event {
    Event {
        timestamp: "2023-11-10 10:36".to_string(),
        kind: kind.to_string(),
        id,
        previous_event_id: None,
        execution_started_event_details: None,
        state_entered_event_details: None,
        state_exited_event_details: None,
        lambda_function_scheduled_event_details: None,
        lambda_function_failed_event_details: None,
        execution_succeeded_event_details: None,
    }
}

#[test]
fn an_event_without_its_details_is_read() {
    let text = r#"{"timestamp":1699612567.763,"type":"ExecutionSucceeded","id":9,"previousEventId":8}"#;
    let mut expected = bare_event(9, "ExecutionSucceeded");
    expected.previous_event_id = Some(8);
    assert_eq!(Event::from_json(&tree(text)), Ok(expected));

    let text = r#"{"timestamp":1699612567,"type":"LambdaFunctionFailed","id":4}"#;
    assert_eq!(Event::from_json(&tree(text)), Ok(bare_event(4, "LambdaFunctionFailed")));
}

#[test]
fn details_are_read_whatever_the_kind_says() {
    let text = r#"{"timestamp":"2023-11-10T10:36:07+00:00","type":"StateEntered","id":2,
        "executionStartedEventDetails":{"input":"{}","roleArn":"arn:role"},
        "stateEnteredEventDetails":{"name":"Check","input":"{\"a\":1}"},
        "stateExitedEventDetails":{"name":"Check","output":"out"},
        "lambdaFunctionScheduledEventDetails":{"resource":"arn:fn","input":"in"},
        "lambdaFunctionFailedEventDetails":{"error":"Boom","cause":"because"},
        "executionSucceededEventDetails":{"output":"done"},
        "somethingNew":{"x":1}}"#;
    let mut expected = bare_event(2, "StateEntered");
    expected.execution_started_event_details = Some(ExecutionStartedEventDetails {
        input: "{}".to_string(),
        role_arn: "arn:role".to_string(),
    });
    expected.state_entered_event_details = Some(StateEnteredEventDetails {
        name: "Check".to_string(),
        input: "{\"a\":1}".to_string(),
    });
    expected.state_exited_event_details = Some(StateExitedEventDetails {
        name: "Check".to_string(),
        output: "out".to_string(),
    });
    expected.lambda_function_scheduled_event_details = Some(LambdaFunctionScheduledEventDetails {
        resource: "arn:fn".to_string(),
        input: "in".to_string(),
    });
    expected.lambda_function_failed_event_details = Some(LambdaFunctionFailedEventDetails {
        error: "Boom".to_string(),
        cause: "because".to_string(),
    });
    expected.execution_succeeded_event_details =
        Some(ExecutionSucceededEventDetails { output: "done".to_string() });
    let event = Event::from_json(&tree(text)).unwrap();
    assert_eq!(event, expected);
    assert_eq!(Event::from_json(&event.to_json()).unwrap(), expected);
}

#[test]
fn an_event_is_written_with_null_for_what_is_absent() {
    let mut event = bare_event(1, "ExecutionStarted");
    event.previous_event_id = Some(0);
    event.execution_succeeded_event_details =
        Some(ExecutionSucceededEventDetails { output: "o".to_string() });
    assert_eq!(
        event.to_json().to_text().unwrap(),
        r#"{"executionStartedEventDetails":null,"executionSucceededEventDetails":{"output":"o"},"id":1,"lambdaFunctionFailedEventDetails":null,"lambdaFunctionScheduledEventDetails":null,"previousEventId":0,"stateEnteredEventDetails":null,"stateExitedEventDetails":null,"timestamp":"2023-11-10 10:36","type":"ExecutionStarted"}"#
    );
}

#[test]
fn events_keep_the_order_and_the_ids_of_the_document() {
    let text = r#"{"events":[
        {"timestamp":1699612567,"type":"c","id":30},
        {"timestamp":1699612567,"type":"a","id":10,"previousEventId":30},
        {"timestamp":1699612567,"type":"b","id":20,"previousEventId":10},
        {"timestamp":1699612567,"type":"a","id":10}
    ]}"#;
    let history = EventResponse::from_json(&tree(text)).unwrap();
    let ids: Vec<u64> = history.events.iter().map(|event| event.id).collect();
    assert_eq!(ids, vec![30, 10, 20, 10]);
    let kinds: Vec<&str> = history.events.iter().map(|event| event.kind.as_str()).collect();
    assert_eq!(kinds, vec!["c", "a", "b", "a"]);
    let again = EventResponse::from_json(&history.to_json()).unwrap();
    assert_eq!(again, history);
}

#[test]
fn no_events_are_read_from_an_empty_array() {
    assert_eq!(events_from(&Vec::new()), Ok(Vec::new()));
    assert_eq!(
        EventResponse::from_json(&tree(r#"{"events":[]}"#)),
        Ok(EventResponse { events: Vec::new() })
    );
}

#[test]
fn a_timestamp_that_cannot_be_formatted_names_the_event() {
    let text = r#"{"events":[
        {"timestamp":1699612567,"type":"a","id":1},
        {"timestamp":true,"type":"a","id":7},
        {"timestamp":"never","type":"a","id":8}
    ]}"#;
    assert_eq!(
        EventResponse::from_json(&tree(text)),
        Err(TranslateError::TranslationError { event_id: 7 })
    );
    let text = r#"{"timestamp":1e300,"type":"a","id":12}"#;
    assert_eq!(
        Event::from_json(&tree(text)),
        Err(TranslateError::TranslationError { event_id: 12 })
    );
    let text = r#"{"timestamp":null,"type":"a","id":13}"#;
    assert_eq!(
        Event::from_json(&tree(text)),
        Err(TranslateError::TranslationError { event_id: 13 })
    );
}

#[test]
fn an_event_needs_id_timestamp_and_type() {
    assert_eq!(
        Event::from_json(&tree(r#"{"timestamp":1,"type":"a"}"#)),
        Err(schema("Event", "id"))
    );
    assert_eq!(Event::from_json(&tree(r#"{"type":"a","id":1}"#)), Err(schema("Event", "timestamp")));
    assert_eq!(Event::from_json(&tree(r#"{"timestamp":1,"id":1}"#)), Err(schema("Event", "type")));
    assert_eq!(
        Event::from_json(&tree(r#"{"timestamp":1,"type":"a","id":-1}"#)),
        Err(schema("Event", "id"))
    );
    assert_eq!(
        Event::from_json(&tree(r#"{"timestamp":1,"type":"a","id":1.5}"#)),
        Err(schema("Event", "id"))
    );
    assert_eq!(
        Event::from_json(&tree(r#"{"timestamp":1,"type":"a","id":"1"}"#)),
        Err(schema("Event", "id"))
    );
}

#[test]
fn the_previous_event_has_the_range_of_an_id() {
    let text = r#"{"timestamp":"2023-11-10 09:16","type":"StateEntered","id":70001,"previousEventId":70000}"#;
    let event = Event::from_json(&tree(text)).unwrap();
    assert_eq!(event.id, 70001);
    assert_eq!(event.previous_event_id, Some(70000));
    assert_eq!(Event::from_json(&event.to_json()).unwrap(), event);

    let text = r#"{"timestamp":1699612567,"type":"a","id":18446744073709551615,"previousEventId":18446744073709551615}"#;
    let event = Event::from_json(&tree(text)).unwrap();
    assert_eq!(event.id, u64::MAX);
    assert_eq!(event.previous_event_id, Some(u64::MAX));
    let text = r#"{"timestamp":1699612567,"type":"a","id":1,"previousEventId":18446744073709551616}"#;
    assert_eq!(Event::from_json(&tree(text)), Err(schema("Event", "previousEventId")));
    let text = r#"{"timestamp":1699612567,"type":"a","id":1,"previousEventId":-1}"#;
    assert_eq!(Event::from_json(&tree(text)), Err(schema("Event", "previousEventId")));
    let text = r#"{"timestamp":1699612567,"type":"a","id":1,"previousEventId":1.5}"#;
    assert_eq!(Event::from_json(&tree(text)), Err(schema("Event", "previousEventId")));
    let text = r#"{"timestamp":1699612567,"type":"a","id":1,"previousEventId":null}"#;
    assert_eq!(Event::from_json(&tree(text)).unwrap().previous_event_id, None);
}

#[test]
fn details_with_a_missing_member_fail_the_event() {
    let cases = [
        ("executionStartedEventDetails", r#"{"input":"i"}"#, "ExecutionStartedEventDetails", "roleArn"),
        ("executionStartedEventDetails", r#"{"roleArn":"r"}"#, "ExecutionStartedEventDetails", "input"),
        ("stateEnteredEventDetails", r#"{"input":"i"}"#, "StateEnteredEventDetails", "name"),
        ("stateEnteredEventDetails", r#"{"name":"n"}"#, "StateEnteredEventDetails", "input"),
        ("stateExitedEventDetails", r#"{"output":"o"}"#, "StateExitedEventDetails", "name"),
        ("stateExitedEventDetails", r#"{"name":"n"}"#, "StateExitedEventDetails", "output"),
        ("lambdaFunctionScheduledEventDetails", r#"{"input":"i"}"#, "LambdaFunctionScheduledEventDetails", "resource"),
        ("lambdaFunctionScheduledEventDetails", r#"{"resource":"r"}"#, "LambdaFunctionScheduledEventDetails", "input"),
        ("lambdaFunctionFailedEventDetails", r#"{"cause":"c"}"#, "LambdaFunctionFailedEventDetails", "error"),
        ("lambdaFunctionFailedEventDetails", r#"{"error":"e"}"#, "LambdaFunctionFailedEventDetails", "cause"),
        ("executionSucceededEventDetails", r#"{}"#, "ExecutionSucceededEventDetails", "output"),
        ("executionSucceededEventDetails", r#"5"#, "ExecutionSucceededEventDetails", "output"),
    ];
    for (key, details, object, field) in cases {
        let text =
            format!(r#"{{"timestamp":1699612567,"type":"a","id":1,"{}":{}}}"#, key, details);
        assert_eq!(Event::from_json(&tree(&text)), Err(schema(object, field)), "{}", text);
    }
}

#[test]
fn details_are_written_and_read_again() {
    let started =
        ExecutionStartedEventDetails { input: "i".to_string(), role_arn: "r".to_string() };
    assert_eq!(started.to_json().to_text().unwrap(), r#"{"input":"i","roleArn":"r"}"#);
    assert_eq!(ExecutionStartedEventDetails::from_json(&started.to_json()), Ok(started));
    let entered = StateEnteredEventDetails { name: "n".to_string(), input: "i".to_string() };
    assert_eq!(entered.to_json().to_text().unwrap(), r#"{"input":"i","name":"n"}"#);
    assert_eq!(StateEnteredEventDetails::from_json(&entered.to_json()), Ok(entered));
    let exited = StateExitedEventDetails { name: "n".to_string(), output: "o".to_string() };
    assert_eq!(exited.to_json().to_text().unwrap(), r#"{"name":"n","output":"o"}"#);
    assert_eq!(StateExitedEventDetails::from_json(&exited.to_json()), Ok(exited));
    let scheduled =
        LambdaFunctionScheduledEventDetails { resource: "r".to_string(), input: "i".to_string() };
    assert_eq!(scheduled.to_json().to_text().unwrap(), r#"{"input":"i","resource":"r"}"#);
    assert_eq!(LambdaFunctionScheduledEventDetails::from_json(&scheduled.to_json()), Ok(scheduled));
    let failed = LambdaFunctionFailedEventDetails { error: "e".to_string(), cause: "c".to_string() };
    assert_eq!(failed.to_json().to_text().unwrap(), r#"{"cause":"c","error":"e"}"#);
    assert_eq!(LambdaFunctionFailedEventDetails::from_json(&failed.to_json()), Ok(failed));
    let succeeded = ExecutionSucceededEventDetails { output: "o".to_string() };
    assert_eq!(succeeded.to_json().to_text().unwrap(), r#"{"output":"o"}"#);
    assert_eq!(ExecutionSucceededEventDetails::from_json(&succeeded.to_json()), Ok(succeeded));
}

#[test]
fn state_machines_are_listed_with_canonical_dates() {
    let text = r#"{"stateMachines":[
        {"name":"orders","stateMachineArn":"arn:1","type":"STANDARD","creationDate":1699612567.763},
        {"name":"mail","stateMachineArn":"arn:2","type":"EXPRESS","creationDate":"2023-11-10T10:36:07+00:00","extra":1}
    ]}"#;
    let listed = StateMachineResponse::from_json(&tree(text)).unwrap();
    assert_eq!(
        listed,
        StateMachineResponse {
            state_machines: vec![
                StateMachine {
                    name: "orders".to_string(),
                    state_machine_arn: "arn:1".to_string(),
                    kind: "STANDARD".to_string(),
                    creation_date: "2023-11-10 10:36".to_string(),
                },
                StateMachine {
                    name: "mail".to_string(),
                    state_machine_arn: "arn:2".to_string(),
                    kind: "EXPRESS".to_string(),
                    creation_date: "2023-11-10 10:36".to_string(),
                },
            ]
        }
    );
    assert_eq!(
        listed.to_json().to_text().unwrap(),
        r#"{"stateMachines":[{"creationDate":"2023-11-10 10:36","name":"orders","stateMachineArn":"arn:1","type":"STANDARD"},{"creationDate":"2023-11-10 10:36","name":"mail","stateMachineArn":"arn:2","type":"EXPRESS"}]}"#
    );
    assert_eq!(StateMachineResponse::from_json(&listed.to_json()), Ok(listed));
}

#[test]
fn a_state_machine_needs_all_its_members() {
    let full = r#"{"name":"n","stateMachineArn":"a","type":"t","creationDate":0}"#;
    assert!(StateMachine::from_json(&tree(full)).is_ok());
    for (key, field) in
        [("name", "name"), ("stateMachineArn", "stateMachineArn"), ("type", "type"), ("creationDate", "creationDate")]
    {
        let text = full.replace(&format!("\"{}\"", key), "\"other\"");
        assert_eq!(StateMachine::from_json(&tree(&text)), Err(schema("StateMachine", field)));
    }
    let text = r#"{"name":"n","stateMachineArn":"a","type":"t","creationDate":false}"#;
    assert_eq!(StateMachine::from_json(&tree(text)), Err(TranslateError::FormatError));
    assert_eq!(
        StateMachineResponse::from_json(&tree(r#"{"machines":[]}"#)),
        Err(schema("StateMachineResponse", "stateMachines"))
    );
}

#[test]
fn executions_are_listed_running_or_stopped() {
    let text = r#"{"executions":[
        {"executionArn":"e1","stateMachineArn":"m","name":"first","status":"RUNNING","startDate":1699612567.763},
        {"executionArn":"e2","stateMachineArn":"m","name":"second","status":"SUCCEEDED","startDate":1699612567,"stopDate":1699612687.5}
    ]}"#;
    let listed = ExecutionsResponse::from_json(&tree(text)).unwrap();
    assert_eq!(
        listed,
        ExecutionsResponse {
            executions: vec![
                Executions {
                    execution_arn: "e1".to_string(),
                    state_machine_arn: "m".to_string(),
                    name: "first".to_string(),
                    status: "RUNNING".to_string(),
                    start_date: "2023-11-10 10:36".to_string(),
                    stop_date: None,
                },
                Executions {
                    execution_arn: "e2".to_string(),
                    state_machine_arn: "m".to_string(),
                    name: "second".to_string(),
                    status: "SUCCEEDED".to_string(),
                    start_date: "2023-11-10 10:36".to_string(),
                    stop_date: Some("2023-11-10 10:38".to_string()),
                },
            ]
        }
    );
    assert_eq!(ExecutionsResponse::from_json(&listed.to_json()), Ok(listed));
}

#[test]
fn an_execution_with_a_bad_date_fails_the_list() {
    let text = r#"{"executions":[
        {"executionArn":"e1","stateMachineArn":"m","name":"first","status":"RUNNING","startDate":1699612567,"stopDate":"soon"}
    ]}"#;
    assert_eq!(ExecutionsResponse::from_json(&tree(text)), Err(TranslateError::FormatError));
    let text = r#"{"executions":[{"executionArn":"e1","stateMachineArn":"m","name":"first","status":"RUNNING"}]}"#;
    assert_eq!(ExecutionsResponse::from_json(&tree(text)), Err(schema("Executions", "startDate")));
    assert_eq!(
        ExecutionsResponse::from_json(&tree(r#"{"executions":{}}"#)),
        Err(schema("ExecutionsResponse", "executions"))
    );
    assert_eq!(
        EventResponse::from_json(&tree(r#"{}"#)),
        Err(schema("EventResponse", "events"))
    );
}

#[test]
fn a_failure_is_written_as_one_message() {
    let failure = ServerError { message: "ERROR: \"quoted\"".to_string() };
    assert_eq!(failure.to_json().to_text().unwrap(), r#"{"message":"ERROR: \"quoted\""}"#);
}

#[test]
fn a_history_in_ascending_order_is_well_ordered() {
    let text = r#"{"events":[
        {"timestamp":0,"type":"a","id":1},
        {"timestamp":0,"type":"b","id":2,"previousEventId":1},
        {"timestamp":0,"type":"c","id":5,"previousEventId":2}
    ]}"#;
    let history = EventResponse::from_json(&tree(text)).unwrap();
    assert!(check_order(&history.events));
    assert!(check_order(&Vec::new()));
    assert!(check_order(&vec![bare_event(9, "a")]));
}

#[test]
fn a_history_out_of_order_is_read_but_not_well_ordered() {
    let mut second = bare_event(2, "b");
    second.previous_event_id = Some(1);
    let mut again = bare_event(2, "b");
    again.previous_event_id = Some(2);
    let mut first = bare_event(1, "a");
    first.previous_event_id = Some(0);
    assert!(!check_order(&vec![bare_event(2, "b"), first]));
    assert!(!check_order(&vec![bare_event(1, "a"), second, again]));
    assert!(!check_order(&vec![bare_event(1, "a"), bare_event(2, "b")]));
}

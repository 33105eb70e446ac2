//! From the outcome of a call of the workflow engine to the answer for the
//! caller: the translated model as JSON text, or one message that says what
//! failed.

use crate::envelope::{
    event_response_json, event_response_of, executions_response_json, executions_response_of,
    server_error_json, state_machine_json, state_machine_of, state_machine_response_json,
    state_machine_response_of, EventResponse, ExecutionsResponse, ServerError, StateMachine,
    StateMachineResponse,
};
use crate::error::{ErrorView, TranslateError};
use crate::fields::outcome;
use crate::json::{text_tree, tree_text, Json, JsonNumber, JsonView, NumberView};
use crate::text::{signed_decimal, signed_text};
use vstd::prelude::*;
use vstd::string::StringExecFns;
use vstd::utf8::{decode_utf8, valid_utf8};

verus! {

/// What the caller asks of the workflow engine.
#[derive(Clone, Copy, Debug, PartialEq, Eq, Structural)]
pub enum Operation {
    ListStateMachines,
    DescribeStateMachine,
    ListExecutions,
    GetExecutionHistory,
    DeleteStateMachine,
    StopExecution,
}

/// How a call of the workflow engine ended.
#[derive(Debug, PartialEq, Eq)]
pub enum Invocation {
    /// The command could not be run at all.
    NotRun { reason: String },
    /// The command ran and reported failure with this exit status.
    Failed { status: i32 },
    /// The command ran and wrote this to its standard output.
    Succeeded { output: Vec<u8> },
}

/// The mathematical value of an [`Invocation`].
pub enum InvocationView {
    NotRun { reason: Seq<char> },
    Failed { status: i32 },
    Succeeded { output: Seq<u8> },
}

impl View for Invocation {
    type V = InvocationView;

    open spec fn view(&self) -> InvocationView {
        match self {
            Invocation::NotRun { reason } => InvocationView::NotRun { reason: reason@ },
            Invocation::Failed { status } => InvocationView::Failed { status: *status },
            Invocation::Succeeded { output } => InvocationView::Succeeded { output: output@ },
        }
    }
}

/// The answer for the caller: a status, 200 or 500, and a body of JSON
/// text.
#[derive(Debug, PartialEq, Eq)]
pub struct Reply {
    pub status: u16,
    pub body: String,
}

/// The mathematical value of a [`Reply`].
pub struct ReplyView {
    pub status: u16,
    pub body: Seq<char>,
}

impl View for Reply {
    type V = ReplyView;

    open spec fn view(&self) -> ReplyView {
        ReplyView { status: self.status, body: self.body@ }
    }
}

/// The name of an operation, as the engine's command line has it.
pub open spec fn operation_name(op: Operation) -> Seq<char> {
    match op {
        Operation::ListStateMachines => "list-state-machines"@,
        Operation::DescribeStateMachine => "describe-state-machine"@,
        Operation::ListExecutions => "list-executions"@,
        Operation::GetExecutionHistory => "get-execution-history"@,
        Operation::DeleteStateMachine => "delete-state-machine"@,
        Operation::StopExecution => "stop-execution"@,
    }
}

/// What follows the region on the command line of an operation.
pub open spec fn command_tail(op: Operation, arn: Seq<char>) -> Seq<char> {
    match op {
        Operation::ListStateMachines => Seq::empty(),
        Operation::DescribeStateMachine => " --state-machine-arn "@ + arn,
        Operation::ListExecutions => " --no-paginate --state-machine-arn "@ + arn,
        Operation::GetExecutionHistory => " --no-paginate --execution-arn "@ + arn,
        Operation::DeleteStateMachine => " --state-machine-arn "@ + arn,
        Operation::StopExecution => " --execution-arn "@ + arn
            + " --cause \"Manual Step Functions Local stop\" --error ManualStop"@,
    }
}

/// The command line that asks the engine for an operation.
pub open spec fn command_line(op: Operation, region: Seq<char>, arn: Seq<char>) -> Seq<char> {
    "aws stepfunctions "@ + operation_name(op) + " --endpoint-url http://localhost:8083 --region "@
        + region + command_tail(op, arn)
}

/// Whether the answer to an operation is read from the output of the
/// command.
pub open spec fn has_output(op: Operation) -> bool {
    match op {
        Operation::ListStateMachines => true,
        Operation::DescribeStateMachine => true,
        Operation::ListExecutions => true,
        Operation::GetExecutionHistory => true,
        Operation::DeleteStateMachine => false,
        Operation::StopExecution => false,
    }
}

/// The output of a call, or the failure of the call.
pub open spec fn output_of(call: InvocationView) -> Result<Seq<u8>, ErrorView> {
    match call {
        InvocationView::NotRun { reason } => Err(ErrorView::InvocationFailed { message: reason }),
        InvocationView::Failed { status } => Err(ErrorView::NonZeroExit { status }),
        InvocationView::Succeeded { output } => Ok(output),
    }
}

/// The JSON tree that an output holds.
pub open spec fn tree_of_output(bytes: Seq<u8>) -> Result<JsonView, ErrorView> {
    if !valid_utf8(bytes) {
        Err(ErrorView::OutputDecodeError { reason: utf8_failure(bytes) })
    } else {
        match text_tree(decode_utf8(bytes)) {
            Ok(tree) => Ok(tree),
            Err(message) => Err(ErrorView::InvalidJson { message }),
        }
    }
}

/// The answer to a query as a JSON tree: the output is read into the model
/// of the operation, and the model is written again.
pub open spec fn answer_tree(op: Operation, tree: JsonView) -> Result<JsonView, ErrorView> {
    match op {
        Operation::ListStateMachines => match state_machine_response_of(tree) {
            Ok(model) => Ok(state_machine_response_json(model)),
            Err(e) => Err(e),
        },
        Operation::DescribeStateMachine => match state_machine_of(tree) {
            Ok(model) => Ok(state_machine_json(model)),
            Err(e) => Err(e),
        },
        Operation::ListExecutions => match executions_response_of(tree) {
            Ok(model) => Ok(executions_response_json(model)),
            Err(e) => Err(e),
        },
        Operation::GetExecutionHistory => match event_response_of(tree) {
            Ok(model) => Ok(event_response_json(model)),
            Err(e) => Err(e),
        },
        Operation::DeleteStateMachine => Ok(done()),
        Operation::StopExecution => Ok(done()),
    }
}

/// The answer to an operation that returns nothing: the number zero.
pub open spec fn done() -> JsonView {
    JsonView::Number(NumberView::Unsigned(0))
}

/// The result of an operation: the answer as a JSON tree, or the first
/// failure on the way to it.
pub open spec fn result_of(op: Operation, call: InvocationView) -> Result<JsonView, ErrorView> {
    match output_of(call) {
        Err(e) => Err(e),
        Ok(bytes) => if has_output(op) {
            match tree_of_output(bytes) {
                Err(e) => Err(e),
                Ok(tree) => answer_tree(op, tree),
            }
        } else {
            Ok(done())
        },
    }
}

/// How the message begins where the command of an operation could not be
/// run.
pub open spec fn not_run_prefix(op: Operation) -> Seq<char> {
    match op {
        Operation::ListStateMachines => "ERROR: Executing Step Function CLI command. "@,
        Operation::DescribeStateMachine =>
            "ERROR: Executing Step Function CLI \"describe-state-machine\" command. "@,
        Operation::ListExecutions =>
            "ERROR: Executing Step Function CLI \"list-executions\" failed due to "@,
        Operation::GetExecutionHistory =>
            "ERROR: Executing Step Function CLI \"get-execution-history\" failed due to "@,
        Operation::DeleteStateMachine =>
            "ERROR: Executing Step Function CLI \"delete-state-machine\" command. "@,
        Operation::StopExecution =>
            "ERROR: Executing Step Function CLI \"stop-execution\" command. "@,
    }
}

/// How the message begins where the command of an operation reported
/// failure; the exit status follows.
pub open spec fn exit_prefix(op: Operation) -> Seq<char> {
    match op {
        Operation::DeleteStateMachine =>
            "ERROR: Executing Step Function CLI \"delete-state-machine\" command. "@,
        Operation::StopExecution =>
            "ERROR: Executing Step Function CLI \"stop-execution\" command. "@,
        _ => "ERROR: Step Function exited with status code: "@,
    }
}

/// How the message begins where the output of an operation cannot be read
/// into its model.
pub open spec fn parse_prefix(op: Operation) -> Seq<char> {
    match op {
        Operation::ListStateMachines => "ERROR: Failed to parse state machines. "@,
        Operation::DescribeStateMachine => "ERROR: Failed to parse state machine. "@,
        Operation::ListExecutions => "ERROR: Failed to parse executions. "@,
        Operation::GetExecutionHistory => "ERROR: Failed to parse execution events. "@,
        Operation::DeleteStateMachine => "ERROR: Failed to parse the output. "@,
        Operation::StopExecution => "ERROR: Failed to parse the output. "@,
    }
}

/// The message for a failed operation: how it begins depends on the
/// operation and on the kind of failure; the reason, the exit status or the
/// description of what is wrong with the output follows.
pub open spec fn failure_message(op: Operation, e: ErrorView) -> Seq<char> {
    match e {
        ErrorView::InvocationFailed { message } => not_run_prefix(op) + message,
        ErrorView::NonZeroExit { status } => exit_prefix(op) + signed_decimal(status as int),
        ErrorView::OutputDecodeError { reason } => "ERROR: Output convert failed due to: "@
            + reason,
        _ => parse_prefix(op) + e.message(),
    }
}

/// The body of a reply where even the message cannot be written.
pub open spec fn fallback_body() -> Seq<char> {
    "{\"message\":\"ERROR: the answer cannot be written\"}"@
}

/// The reply for a result: status 200 with the answer as text, or status 500
/// with the message of the failure.
pub open spec fn reply_of_result(op: Operation, result: Result<JsonView, ErrorView>) -> ReplyView {
    match result {
        Ok(tree) => match tree_text(tree) {
            Some(body) => ReplyView { status: 200, body },
            None => ReplyView { status: 500, body: fallback_body() },
        },
        Err(e) => ReplyView {
            status: 500,
            body: match tree_text(server_error_json(failure_message(op, e))) {
                Some(body) => body,
                None => fallback_body(),
            },
        },
    }
}

/// The reply to an operation whose call ended as `call`.
pub open spec fn reply_of(op: Operation, call: InvocationView) -> ReplyView {
    reply_of_result(op, result_of(op, call))
}

impl Operation {
    /// The name of the operation, as the engine's command line has it.
    pub fn name(&self) -> (out: &'static str)
        ensures
            out@ == operation_name(*self),
    {
        match self {
            Operation::ListStateMachines => "list-state-machines",
            Operation::DescribeStateMachine => "describe-state-machine",
            Operation::ListExecutions => "list-executions",
            Operation::GetExecutionHistory => "get-execution-history",
            Operation::DeleteStateMachine => "delete-state-machine",
            Operation::StopExecution => "stop-execution",
        }
    }

    /// How the message begins where the command could not be run.
    pub fn not_run_prefix(&self) -> (out: &'static str)
        ensures
            out@ == not_run_prefix(*self),
    {
        match self {
            Operation::ListStateMachines => "ERROR: Executing Step Function CLI command. ",
            Operation::DescribeStateMachine => {
                "ERROR: Executing Step Function CLI \"describe-state-machine\" command. "
            },
            Operation::ListExecutions => {
                "ERROR: Executing Step Function CLI \"list-executions\" failed due to "
            },
            Operation::GetExecutionHistory => {
                "ERROR: Executing Step Function CLI \"get-execution-history\" failed due to "
            },
            Operation::DeleteStateMachine => {
                "ERROR: Executing Step Function CLI \"delete-state-machine\" command. "
            },
            Operation::StopExecution => {
                "ERROR: Executing Step Function CLI \"stop-execution\" command. "
            },
        }
    }

    /// How the message begins where the command reported failure.
    pub fn exit_prefix(&self) -> (out: &'static str)
        ensures
            out@ == exit_prefix(*self),
    {
        match self {
            Operation::DeleteStateMachine => {
                "ERROR: Executing Step Function CLI \"delete-state-machine\" command. "
            },
            Operation::StopExecution => {
                "ERROR: Executing Step Function CLI \"stop-execution\" command. "
            },
            _ => "ERROR: Step Function exited with status code: ",
        }
    }

    /// How the message begins where the output cannot be read into the
    /// model of the operation.
    pub fn parse_prefix(&self) -> (out: &'static str)
        ensures
            out@ == parse_prefix(*self),
    {
        match self {
            Operation::ListStateMachines => "ERROR: Failed to parse state machines. ",
            Operation::DescribeStateMachine => "ERROR: Failed to parse state machine. ",
            Operation::ListExecutions => "ERROR: Failed to parse executions. ",
            Operation::GetExecutionHistory => "ERROR: Failed to parse execution events. ",
            Operation::DeleteStateMachine => "ERROR: Failed to parse the output. ",
            Operation::StopExecution => "ERROR: Failed to parse the output. ",
        }
    }

    /// The message for a failure of the operation.
    pub fn failure_message(&self, e: &TranslateError) -> (out: String)
        ensures
            out@ == failure_message(*self, e@),
    {
        match e {
            TranslateError::InvocationFailed { message } => {
                String::from_str(self.not_run_prefix()).concat(message.as_str())
            },
            TranslateError::NonZeroExit { status } => {
                let digits = signed_text(*status as i64);
                String::from_str(self.exit_prefix()).concat(digits.as_str())
            },
            TranslateError::OutputDecodeError { reason } => {
                String::from_str("ERROR: Output convert failed due to: ").concat(reason.as_str())
            },
            _ => {
                let detail = e.describe();
                String::from_str(self.parse_prefix()).concat(detail.as_str())
            },
        }
    }

    /// The command line that asks the engine for the operation. `arn` names
    /// the state machine or the run; listing the state machines takes none.
    pub fn command(&self, region: &str, arn: &str) -> (out: String)
        ensures
            out@ == command_line(*self, region@, arn@),
    {
        let head = String::from_str("aws stepfunctions ").concat(self.name()).concat(
            " --endpoint-url http://localhost:8083 --region ",
        ).concat(region);
        let out = match self {
            Operation::ListStateMachines => head,
            Operation::DescribeStateMachine => head.concat(" --state-machine-arn ").concat(arn),
            Operation::ListExecutions => head.concat(" --no-paginate --state-machine-arn ").concat(
                arn,
            ),
            Operation::GetExecutionHistory => head.concat(" --no-paginate --execution-arn ").concat(
                arn,
            ),
            Operation::DeleteStateMachine => head.concat(" --state-machine-arn ").concat(arn),
            Operation::StopExecution => head.concat(" --execution-arn ").concat(arn).concat(
                " --cause \"Manual Step Functions Local stop\" --error ManualStop",
            ),
        };
        assert(out@ =~= command_line(*self, region@, arn@));
        out
    }
}

/// What the error of `std::str::from_utf8` says of bytes that are not valid
/// UTF-8.
pub uninterp spec fn utf8_failure(bytes: Seq<u8>) -> Seq<char>;

/// Calls `std::str::from_utf8`: the text where the bytes are valid UTF-8,
/// which is then what the bytes decode to; where they are not, what the
/// error says, which is named by `utf8_failure`.
#[verifier::external_body]
fn decode_output(bytes: &Vec<u8>) -> (out: Result<String, String>)
    ensures
        match out {
            Ok(text) => valid_utf8(bytes@) && text@ == decode_utf8(bytes@),
            Err(reason) => !valid_utf8(bytes@) && reason@ == utf8_failure(bytes@),
        },
{
    match std::str::from_utf8(bytes) {
        Ok(text) => Ok(text.to_owned()),
        Err(e) => Err(e.to_string()),
    }
}

/// Reads the output of a command as a JSON tree.
pub fn read_output(bytes: &Vec<u8>) -> (out: Result<Json, TranslateError>)
    ensures
        outcome(out, |j: Json| j@) == tree_of_output(bytes@),
{
    match decode_output(bytes) {
        Err(reason) => Err(TranslateError::OutputDecodeError { reason }),
        Ok(text) => match Json::from_text(text.as_str()) {
            Ok(tree) => Ok(tree),
            Err(message) => Err(TranslateError::InvalidJson { message }),
        },
    }
}

/// Translates the output of a query: reads it into the model of the
/// operation and writes the model again.
pub fn translate(op: Operation, tree: &Json) -> (out: Result<Json, TranslateError>)
    ensures
        outcome(out, |j: Json| j@) == answer_tree(op, tree@),
{
    match op {
        Operation::ListStateMachines => Ok(StateMachineResponse::from_json(tree)?.to_json()),
        Operation::DescribeStateMachine => Ok(StateMachine::from_json(tree)?.to_json()),
        Operation::ListExecutions => Ok(ExecutionsResponse::from_json(tree)?.to_json()),
        Operation::GetExecutionHistory => Ok(EventResponse::from_json(tree)?.to_json()),
        Operation::DeleteStateMachine => Ok(Json::Number(JsonNumber::Unsigned(0))),
        Operation::StopExecution => Ok(Json::Number(JsonNumber::Unsigned(0))),
    }
}

/// The result of an operation whose call ended as `call`.
pub fn result_for(op: Operation, call: &Invocation) -> (out: Result<Json, TranslateError>)
    ensures
        outcome(out, |j: Json| j@) == result_of(op, call@),
{
    match call {
        Invocation::NotRun { reason } => Err(
            TranslateError::InvocationFailed { message: reason.clone() },
        ),
        Invocation::Failed { status } => Err(TranslateError::NonZeroExit { status: *status }),
        Invocation::Succeeded { output } => {
            match op {
                Operation::DeleteStateMachine => Ok(Json::Number(JsonNumber::Unsigned(0))),
                Operation::StopExecution => Ok(Json::Number(JsonNumber::Unsigned(0))),
                _ => {
                    let tree = read_output(output)?;
                    translate(op, &tree)
                },
            }
        },
    }
}

/// The reply for a result.
pub fn reply_for(op: Operation, result: &Result<Json, TranslateError>) -> (out: Reply)
    ensures
        out@ == reply_of_result(op, outcome(*result, |j: Json| j@)),
{
    match result {
        Ok(tree) => match tree.to_text() {
            Some(body) => Reply { status: 200, body },
            None => Reply {
                status: 500,
                body: String::from_str("{\"message\":\"ERROR: the answer cannot be written\"}"),
            },
        },
        Err(e) => {
            let message = op.failure_message(e);
            let body = match (ServerError { message }).to_json().to_text() {
                Some(body) => body,
                None => String::from_str("{\"message\":\"ERROR: the answer cannot be written\"}"),
            };
            Reply { status: 500, body }
        },
    }
}

/// The reply to an operation whose call ended as `call`.
pub fn answer(op: Operation, call: &Invocation) -> (out: Reply)
    ensures
        out@ == reply_of(op, call@),
{
    let result = result_for(op, call);
    reply_for(op, &result)
}

} // verus!

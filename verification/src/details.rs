//! The payloads that an event of a history may carry, one kind for each
//! kind of event that has one.

use crate::error::{ErrorView, TranslateError};
use crate::fields::{entry, outcome};
use crate::json::{lemma_member_found, lemma_members_view, Json, JsonView};
use vstd::prelude::*;

verus! {

/// The details of a run that has started: its input and the role it runs under.
#[derive(Debug, PartialEq, Eq)]
pub struct ExecutionStartedEventDetails {
    pub input: String,
    pub role_arn: String,
}

/// The mathematical value of a [`ExecutionStartedEventDetails`].
pub struct ExecutionStartedEventDetailsView {
    pub input: Seq<char>,
    pub role_arn: Seq<char>,
}

impl View for ExecutionStartedEventDetails {
    type V = ExecutionStartedEventDetailsView;

    open spec fn view(&self) -> ExecutionStartedEventDetailsView {
        ExecutionStartedEventDetailsView { input: self.input@, role_arn: self.role_arn@ }
    }
}

/// The details that a JSON value stands for.
pub open spec fn execution_started_of(j: JsonView) -> Result<
    ExecutionStartedEventDetailsView,
    ErrorView,
> {
    let input = j.text_member("ExecutionStartedEventDetails"@, "input"@);
    let role_arn = j.text_member("ExecutionStartedEventDetails"@, "roleArn"@);
    if input is Err {
        Err(input->Err_0)
    } else if role_arn is Err {
        Err(role_arn->Err_0)
    } else {
        Ok(ExecutionStartedEventDetailsView { input: input->Ok_0, role_arn: role_arn->Ok_0 })
    }
}

/// The JSON value that stands for the details.
pub open spec fn execution_started_json(d: ExecutionStartedEventDetailsView) -> JsonView {
    JsonView::Object(
        seq![
            ("input"@, JsonView::Text(d.input)),
            ("roleArn"@, JsonView::Text(d.role_arn)),
        ],
    )
}

/// Details that are written and read again are the same details.
pub proof fn lemma_execution_started_round_trip(d: ExecutionStartedEventDetailsView)
    ensures
        execution_started_of(execution_started_json(d)) == Ok::<
            ExecutionStartedEventDetailsView,
            ErrorView,
        >(d),
{
    reveal_strlit("input");
    reveal_strlit("roleArn");
    let members = execution_started_json(d)->Object_0;
    assert("input"@[0] == 'i' && "roleArn"@[0] == 'r');
    lemma_member_found(members, 0, "input"@);
    lemma_member_found(members, 1, "roleArn"@);
}

impl ExecutionStartedEventDetails {
    /// Reads the details; every member is required.
    pub fn from_json(j: &Json) -> (out: Result<ExecutionStartedEventDetails, TranslateError>)
        ensures
            outcome(out, |d: ExecutionStartedEventDetails| d@) == execution_started_of(j@),
    {
        let input = j.text_member("ExecutionStartedEventDetails", "input")?;
        let role_arn = j.text_member("ExecutionStartedEventDetails", "roleArn")?;
        Ok(ExecutionStartedEventDetails { input, role_arn })
    }

    /// Writes the details.
    pub fn to_json(&self) -> (out: Json)
        ensures
            out@ == execution_started_json(self@),
    {
        let mut members: Vec<(String, Json)> = Vec::new();
        members.push(entry("input", Json::text(&self.input)));
        members.push(entry("roleArn", Json::text(&self.role_arn)));
        proof {
            lemma_members_view(members@);
        }
        let out = Json::Object(members);
        assert(out@->Object_0 =~= execution_started_json(self@)->Object_0);
        out
    }
}

/// The details of a state that was entered: its name and its input.
#[derive(Debug, PartialEq, Eq)]
pub struct StateEnteredEventDetails {
    pub name: String,
    pub input: String,
}

/// The mathematical value of a [`StateEnteredEventDetails`].
pub struct StateEnteredEventDetailsView {
    pub name: Seq<char>,
    pub input: Seq<char>,
}

impl View for StateEnteredEventDetails {
    type V = StateEnteredEventDetailsView;

    open spec fn view(&self) -> StateEnteredEventDetailsView {
        StateEnteredEventDetailsView { name: self.name@, input: self.input@ }
    }
}

/// The details that a JSON value stands for.
pub open spec fn state_entered_of(j: JsonView) -> Result<StateEnteredEventDetailsView, ErrorView> {
    let name = j.text_member("StateEnteredEventDetails"@, "name"@);
    let input = j.text_member("StateEnteredEventDetails"@, "input"@);
    if name is Err {
        Err(name->Err_0)
    } else if input is Err {
        Err(input->Err_0)
    } else {
        Ok(StateEnteredEventDetailsView { name: name->Ok_0, input: input->Ok_0 })
    }
}

/// The JSON value that stands for the details.
pub open spec fn state_entered_json(d: StateEnteredEventDetailsView) -> JsonView {
    JsonView::Object(seq![("name"@, JsonView::Text(d.name)), ("input"@, JsonView::Text(d.input))])
}

/// Details that are written and read again are the same details.
pub proof fn lemma_state_entered_round_trip(d: StateEnteredEventDetailsView)
    ensures
        state_entered_of(state_entered_json(d)) == Ok::<StateEnteredEventDetailsView, ErrorView>(d),
{
    reveal_strlit("name");
    reveal_strlit("input");
    let members = state_entered_json(d)->Object_0;
    assert("name"@[0] == 'n' && "input"@[0] == 'i');
    lemma_member_found(members, 0, "name"@);
    lemma_member_found(members, 1, "input"@);
}

impl StateEnteredEventDetails {
    /// Reads the details; every member is required.
    pub fn from_json(j: &Json) -> (out: Result<StateEnteredEventDetails, TranslateError>)
        ensures
            outcome(out, |d: StateEnteredEventDetails| d@) == state_entered_of(j@),
    {
        let name = j.text_member("StateEnteredEventDetails", "name")?;
        let input = j.text_member("StateEnteredEventDetails", "input")?;
        Ok(StateEnteredEventDetails { name, input })
    }

    /// Writes the details.
    pub fn to_json(&self) -> (out: Json)
        ensures
            out@ == state_entered_json(self@),
    {
        let mut members: Vec<(String, Json)> = Vec::new();
        members.push(entry("name", Json::text(&self.name)));
        members.push(entry("input", Json::text(&self.input)));
        proof {
            lemma_members_view(members@);
        }
        let out = Json::Object(members);
        assert(out@->Object_0 =~= state_entered_json(self@)->Object_0);
        out
    }
}

/// The details of a state that was left: its name and its output.
#[derive(Debug, PartialEq, Eq)]
pub struct StateExitedEventDetails {
    pub name: String,
    pub output: String,
}

/// The mathematical value of a [`StateExitedEventDetails`].
pub struct StateExitedEventDetailsView {
    pub name: Seq<char>,
    pub output: Seq<char>,
}

impl View for StateExitedEventDetails {
    type V = StateExitedEventDetailsView;

    open spec fn view(&self) -> StateExitedEventDetailsView {
        StateExitedEventDetailsView { name: self.name@, output: self.output@ }
    }
}

/// The details that a JSON value stands for.
pub open spec fn state_exited_of(j: JsonView) -> Result<StateExitedEventDetailsView, ErrorView> {
    let name = j.text_member("StateExitedEventDetails"@, "name"@);
    let output = j.text_member("StateExitedEventDetails"@, "output"@);
    if name is Err {
        Err(name->Err_0)
    } else if output is Err {
        Err(output->Err_0)
    } else {
        Ok(StateExitedEventDetailsView { name: name->Ok_0, output: output->Ok_0 })
    }
}

/// The JSON value that stands for the details.
pub open spec fn state_exited_json(d: StateExitedEventDetailsView) -> JsonView {
    JsonView::Object(seq![("name"@, JsonView::Text(d.name)), ("output"@, JsonView::Text(d.output))])
}

/// Details that are written and read again are the same details.
pub proof fn lemma_state_exited_round_trip(d: StateExitedEventDetailsView)
    ensures
        state_exited_of(state_exited_json(d)) == Ok::<StateExitedEventDetailsView, ErrorView>(d),
{
    reveal_strlit("name");
    reveal_strlit("output");
    let members = state_exited_json(d)->Object_0;
    assert("name"@[0] == 'n' && "output"@[0] == 'o');
    lemma_member_found(members, 0, "name"@);
    lemma_member_found(members, 1, "output"@);
}

impl StateExitedEventDetails {
    /// Reads the details; every member is required.
    pub fn from_json(j: &Json) -> (out: Result<StateExitedEventDetails, TranslateError>)
        ensures
            outcome(out, |d: StateExitedEventDetails| d@) == state_exited_of(j@),
    {
        let name = j.text_member("StateExitedEventDetails", "name")?;
        let output = j.text_member("StateExitedEventDetails", "output")?;
        Ok(StateExitedEventDetails { name, output })
    }

    /// Writes the details.
    pub fn to_json(&self) -> (out: Json)
        ensures
            out@ == state_exited_json(self@),
    {
        let mut members: Vec<(String, Json)> = Vec::new();
        members.push(entry("name", Json::text(&self.name)));
        members.push(entry("output", Json::text(&self.output)));
        proof {
            lemma_members_view(members@);
        }
        let out = Json::Object(members);
        assert(out@->Object_0 =~= state_exited_json(self@)->Object_0);
        out
    }
}

/// The details of a function that was scheduled: its resource and its input.
#[derive(Debug, PartialEq, Eq)]
pub struct LambdaFunctionScheduledEventDetails {
    pub resource: String,
    pub input: String,
}

/// The mathematical value of a [`LambdaFunctionScheduledEventDetails`].
pub struct LambdaFunctionScheduledEventDetailsView {
    pub resource: Seq<char>,
    pub input: Seq<char>,
}

impl View for LambdaFunctionScheduledEventDetails {
    type V = LambdaFunctionScheduledEventDetailsView;

    open spec fn view(&self) -> LambdaFunctionScheduledEventDetailsView {
        LambdaFunctionScheduledEventDetailsView { resource: self.resource@, input: self.input@ }
    }
}

/// The details that a JSON value stands for.
pub open spec fn lambda_function_scheduled_of(j: JsonView) -> Result<
    LambdaFunctionScheduledEventDetailsView,
    ErrorView,
> {
    let resource = j.text_member("LambdaFunctionScheduledEventDetails"@, "resource"@);
    let input = j.text_member("LambdaFunctionScheduledEventDetails"@, "input"@);
    if resource is Err {
        Err(resource->Err_0)
    } else if input is Err {
        Err(input->Err_0)
    } else {
        Ok(LambdaFunctionScheduledEventDetailsView { resource: resource->Ok_0, input: input->Ok_0 })
    }
}

/// The JSON value that stands for the details.
pub open spec fn lambda_function_scheduled_json(
    d: LambdaFunctionScheduledEventDetailsView,
) -> JsonView {
    JsonView::Object(
        seq![
            ("resource"@, JsonView::Text(d.resource)),
            ("input"@, JsonView::Text(d.input)),
        ],
    )
}

/// Details that are written and read again are the same details.
pub proof fn lemma_lambda_function_scheduled_round_trip(d: LambdaFunctionScheduledEventDetailsView)
    ensures
        lambda_function_scheduled_of(lambda_function_scheduled_json(d)) == Ok::<
            LambdaFunctionScheduledEventDetailsView,
            ErrorView,
        >(d),
{
    reveal_strlit("resource");
    reveal_strlit("input");
    let members = lambda_function_scheduled_json(d)->Object_0;
    assert("resource"@[0] == 'r' && "input"@[0] == 'i');
    lemma_member_found(members, 0, "resource"@);
    lemma_member_found(members, 1, "input"@);
}

impl LambdaFunctionScheduledEventDetails {
    /// Reads the details; every member is required.
    pub fn from_json(j: &Json) -> (out: Result<
        LambdaFunctionScheduledEventDetails,
        TranslateError,
    >)
        ensures
            outcome(out, |d: LambdaFunctionScheduledEventDetails| d@)
                == lambda_function_scheduled_of(j@),
    {
        let resource = j.text_member("LambdaFunctionScheduledEventDetails", "resource")?;
        let input = j.text_member("LambdaFunctionScheduledEventDetails", "input")?;
        Ok(LambdaFunctionScheduledEventDetails { resource, input })
    }

    /// Writes the details.
    pub fn to_json(&self) -> (out: Json)
        ensures
            out@ == lambda_function_scheduled_json(self@),
    {
        let mut members: Vec<(String, Json)> = Vec::new();
        members.push(entry("resource", Json::text(&self.resource)));
        members.push(entry("input", Json::text(&self.input)));
        proof {
            lemma_members_view(members@);
        }
        let out = Json::Object(members);
        assert(out@->Object_0 =~= lambda_function_scheduled_json(self@)->Object_0);
        out
    }
}

/// The details of a function that failed: the error and its cause.
#[derive(Debug, PartialEq, Eq)]
pub struct LambdaFunctionFailedEventDetails {
    pub error: String,
    pub cause: String,
}

/// The mathematical value of a [`LambdaFunctionFailedEventDetails`].
pub struct LambdaFunctionFailedEventDetailsView {
    pub error: Seq<char>,
    pub cause: Seq<char>,
}

impl View for LambdaFunctionFailedEventDetails {
    type V = LambdaFunctionFailedEventDetailsView;

    open spec fn view(&self) -> LambdaFunctionFailedEventDetailsView {
        LambdaFunctionFailedEventDetailsView { error: self.error@, cause: self.cause@ }
    }
}

/// The details that a JSON value stands for.
pub open spec fn lambda_function_failed_of(j: JsonView) -> Result<
    LambdaFunctionFailedEventDetailsView,
    ErrorView,
> {
    let error = j.text_member("LambdaFunctionFailedEventDetails"@, "error"@);
    let cause = j.text_member("LambdaFunctionFailedEventDetails"@, "cause"@);
    if error is Err {
        Err(error->Err_0)
    } else if cause is Err {
        Err(cause->Err_0)
    } else {
        Ok(LambdaFunctionFailedEventDetailsView { error: error->Ok_0, cause: cause->Ok_0 })
    }
}

/// The JSON value that stands for the details.
pub open spec fn lambda_function_failed_json(d: LambdaFunctionFailedEventDetailsView) -> JsonView {
    JsonView::Object(seq![("error"@, JsonView::Text(d.error)), ("cause"@, JsonView::Text(d.cause))])
}

/// Details that are written and read again are the same details.
pub proof fn lemma_lambda_function_failed_round_trip(d: LambdaFunctionFailedEventDetailsView)
    ensures
        lambda_function_failed_of(lambda_function_failed_json(d)) == Ok::<
            LambdaFunctionFailedEventDetailsView,
            ErrorView,
        >(d),
{
    reveal_strlit("error");
    reveal_strlit("cause");
    let members = lambda_function_failed_json(d)->Object_0;
    assert("error"@[0] == 'e' && "cause"@[0] == 'c');
    lemma_member_found(members, 0, "error"@);
    lemma_member_found(members, 1, "cause"@);
}

impl LambdaFunctionFailedEventDetails {
    /// Reads the details; every member is required.
    pub fn from_json(j: &Json) -> (out: Result<LambdaFunctionFailedEventDetails, TranslateError>)
        ensures
            outcome(out, |d: LambdaFunctionFailedEventDetails| d@) == lambda_function_failed_of(j@),
    {
        let error = j.text_member("LambdaFunctionFailedEventDetails", "error")?;
        let cause = j.text_member("LambdaFunctionFailedEventDetails", "cause")?;
        Ok(LambdaFunctionFailedEventDetails { error, cause })
    }

    /// Writes the details.
    pub fn to_json(&self) -> (out: Json)
        ensures
            out@ == lambda_function_failed_json(self@),
    {
        let mut members: Vec<(String, Json)> = Vec::new();
        members.push(entry("error", Json::text(&self.error)));
        members.push(entry("cause", Json::text(&self.cause)));
        proof {
            lemma_members_view(members@);
        }
        let out = Json::Object(members);
        assert(out@->Object_0 =~= lambda_function_failed_json(self@)->Object_0);
        out
    }
}

/// The details of a run that has succeeded: its output.
#[derive(Debug, PartialEq, Eq)]
pub struct ExecutionSucceededEventDetails {
    pub output: String,
}

/// The mathematical value of a [`ExecutionSucceededEventDetails`].
pub struct ExecutionSucceededEventDetailsView {
    pub output: Seq<char>,
}

impl View for ExecutionSucceededEventDetails {
    type V = ExecutionSucceededEventDetailsView;

    open spec fn view(&self) -> ExecutionSucceededEventDetailsView {
        ExecutionSucceededEventDetailsView { output: self.output@ }
    }
}

/// The details that a JSON value stands for.
pub open spec fn execution_succeeded_of(j: JsonView) -> Result<
    ExecutionSucceededEventDetailsView,
    ErrorView,
> {
    let output = j.text_member("ExecutionSucceededEventDetails"@, "output"@);
    if output is Err {
        Err(output->Err_0)
    } else {
        Ok(ExecutionSucceededEventDetailsView { output: output->Ok_0 })
    }
}

/// The JSON value that stands for the details.
pub open spec fn execution_succeeded_json(d: ExecutionSucceededEventDetailsView) -> JsonView {
    JsonView::Object(seq![("output"@, JsonView::Text(d.output))])
}

/// Details that are written and read again are the same details.
pub proof fn lemma_execution_succeeded_round_trip(d: ExecutionSucceededEventDetailsView)
    ensures
        execution_succeeded_of(execution_succeeded_json(d)) == Ok::<
            ExecutionSucceededEventDetailsView,
            ErrorView,
        >(d),
{
    reveal_strlit("output");
    let members = execution_succeeded_json(d)->Object_0;
    lemma_member_found(members, 0, "output"@);
}

impl ExecutionSucceededEventDetails {
    /// Reads the details; every member is required.
    pub fn from_json(j: &Json) -> (out: Result<ExecutionSucceededEventDetails, TranslateError>)
        ensures
            outcome(out, |d: ExecutionSucceededEventDetails| d@) == execution_succeeded_of(j@),
    {
        let output = j.text_member("ExecutionSucceededEventDetails", "output")?;
        Ok(ExecutionSucceededEventDetails { output })
    }

    /// Writes the details.
    pub fn to_json(&self) -> (out: Json)
        ensures
            out@ == execution_succeeded_json(self@),
    {
        let mut members: Vec<(String, Json)> = Vec::new();
        members.push(entry("output", Json::text(&self.output)));
        proof {
            lemma_members_view(members@);
        }
        let out = Json::Object(members);
        assert(out@->Object_0 =~= execution_succeeded_json(self@)->Object_0);
        out
    }
}

} // verus!

//! What a query returns: the entities, each list under the name of its
//! kind, and the message of a failure.

use crate::error::{ErrorView, TranslateError};
use crate::fields::{entry, outcome, text_or_null, text_view};
use crate::history::{event_reader, events_from, events_json, events_to_json, Event, EventView};
use crate::json::{items_view, lemma_items_view, lemma_members_view, Json, JsonView};
use crate::list::{each, lemma_each_fails, lemma_each_next, then_each, views};
use crate::timestamp::{
    date_member, optional_date_member, read_date_member, read_optional_date_member,
};
use vstd::prelude::*;

verus! {

/// A state machine as the engine lists it.
#[derive(Debug, PartialEq, Eq)]
pub struct StateMachine {
    /// The display name.
    pub name: String,
    /// The name by which the engine knows the state machine.
    pub state_machine_arn: String,
    /// The kind of state machine, as the engine names it.
    pub kind: String,
    /// When it was created, in the canonical form.
    pub creation_date: String,
}

/// The mathematical value of a [`StateMachine`].
pub struct StateMachineView {
    pub name: Seq<char>,
    pub state_machine_arn: Seq<char>,
    pub kind: Seq<char>,
    pub creation_date: Seq<char>,
}

impl View for StateMachine {
    type V = StateMachineView;

    open spec fn view(&self) -> StateMachineView {
        StateMachineView {
            name: self.name@,
            state_machine_arn: self.state_machine_arn@,
            kind: self.kind@,
            creation_date: self.creation_date@,
        }
    }
}

/// The value that a JSON value stands for. Timestamps are brought into the
/// canonical form.
pub open spec fn state_machine_of(j: JsonView) -> Result<StateMachineView, ErrorView> {
    let name = j.text_member("StateMachine"@, "name"@);
    let state_machine_arn = j.text_member("StateMachine"@, "stateMachineArn"@);
    let kind = j.text_member("StateMachine"@, "type"@);
    let creation_date = date_member(j, "StateMachine"@, "creationDate"@);
    if name is Err {
        Err(name->Err_0)
    } else if state_machine_arn is Err {
        Err(state_machine_arn->Err_0)
    } else if kind is Err {
        Err(kind->Err_0)
    } else if creation_date is Err {
        Err(creation_date->Err_0)
    } else {
        Ok(
            StateMachineView {
                name: name->Ok_0,
                state_machine_arn: state_machine_arn->Ok_0,
                kind: kind->Ok_0,
                creation_date: creation_date->Ok_0,
            },
        )
    }
}

/// The JSON value that stands for the value.
pub open spec fn state_machine_json(v: StateMachineView) -> JsonView {
    JsonView::Object(
        seq![
            ("name"@, JsonView::Text(v.name)),
            ("stateMachineArn"@, JsonView::Text(v.state_machine_arn)),
            ("type"@, JsonView::Text(v.kind)),
            ("creationDate"@, JsonView::Text(v.creation_date)),
        ],
    )
}

impl StateMachine {
    /// Reads the value; members that the model does not know are passed
    /// over.
    pub fn from_json(j: &Json) -> (out: Result<StateMachine, TranslateError>)
        ensures
            outcome(out, |v: StateMachine| v@) == state_machine_of(j@),
    {
        let name = j.text_member("StateMachine", "name")?;
        let state_machine_arn = j.text_member("StateMachine", "stateMachineArn")?;
        let kind = j.text_member("StateMachine", "type")?;
        let creation_date = read_date_member(j, "StateMachine", "creationDate")?;
        Ok(StateMachine { name, state_machine_arn, kind, creation_date })
    }

    /// Writes the value.
    pub fn to_json(&self) -> (out: Json)
        ensures
            out@ == state_machine_json(self@),
    {
        let mut members: Vec<(String, Json)> = Vec::new();
        members.push(entry("name", Json::text(&self.name)));
        members.push(entry("stateMachineArn", Json::text(&self.state_machine_arn)));
        members.push(entry("type", Json::text(&self.kind)));
        members.push(entry("creationDate", Json::text(&self.creation_date)));
        proof {
            lemma_members_view(members@);
        }
        let out = Json::Object(members);
        assert(out@->Object_0 =~= state_machine_json(self@)->Object_0);
        out
    }
}

/// One run of a state machine.
#[derive(Debug, PartialEq, Eq)]
pub struct Executions {
    /// The name by which the engine knows the run.
    pub execution_arn: String,
    /// The state machine that is run.
    pub state_machine_arn: String,
    /// The display name.
    pub name: String,
    /// The state of the run, as the engine names it.
    pub status: String,
    /// When the run began, in the canonical form.
    pub start_date: String,
    /// When the run ended; absent while it is running.
    pub stop_date: Option<String>,
}

/// The mathematical value of a [`Executions`].
pub struct ExecutionsView {
    pub execution_arn: Seq<char>,
    pub state_machine_arn: Seq<char>,
    pub name: Seq<char>,
    pub status: Seq<char>,
    pub start_date: Seq<char>,
    pub stop_date: Option<Seq<char>>,
}

impl View for Executions {
    type V = ExecutionsView;

    open spec fn view(&self) -> ExecutionsView {
        ExecutionsView {
            execution_arn: self.execution_arn@,
            state_machine_arn: self.state_machine_arn@,
            name: self.name@,
            status: self.status@,
            start_date: self.start_date@,
            stop_date: text_view(self.stop_date),
        }
    }
}

/// The value that a JSON value stands for. Timestamps are brought into the
/// canonical form.
pub open spec fn execution_of(j: JsonView) -> Result<ExecutionsView, ErrorView> {
    let execution_arn = j.text_member("Executions"@, "executionArn"@);
    let state_machine_arn = j.text_member("Executions"@, "stateMachineArn"@);
    let name = j.text_member("Executions"@, "name"@);
    let status = j.text_member("Executions"@, "status"@);
    let start_date = date_member(j, "Executions"@, "startDate"@);
    let stop_date = optional_date_member(j, "stopDate"@);
    if execution_arn is Err {
        Err(execution_arn->Err_0)
    } else if state_machine_arn is Err {
        Err(state_machine_arn->Err_0)
    } else if name is Err {
        Err(name->Err_0)
    } else if status is Err {
        Err(status->Err_0)
    } else if start_date is Err {
        Err(start_date->Err_0)
    } else if stop_date is Err {
        Err(stop_date->Err_0)
    } else {
        Ok(
            ExecutionsView {
                execution_arn: execution_arn->Ok_0,
                state_machine_arn: state_machine_arn->Ok_0,
                name: name->Ok_0,
                status: status->Ok_0,
                start_date: start_date->Ok_0,
                stop_date: stop_date->Ok_0,
            },
        )
    }
}

/// The JSON value that stands for the value.
pub open spec fn execution_json(v: ExecutionsView) -> JsonView {
    JsonView::Object(
        seq![
            ("executionArn"@, JsonView::Text(v.execution_arn)),
            ("stateMachineArn"@, JsonView::Text(v.state_machine_arn)),
            ("name"@, JsonView::Text(v.name)),
            ("status"@, JsonView::Text(v.status)),
            ("startDate"@, JsonView::Text(v.start_date)),
            ("stopDate"@, text_or_null(v.stop_date)),
        ],
    )
}

impl Executions {
    /// Reads the value; members that the model does not know are passed
    /// over.
    pub fn from_json(j: &Json) -> (out: Result<Executions, TranslateError>)
        ensures
            outcome(out, |v: Executions| v@) == execution_of(j@),
    {
        let execution_arn = j.text_member("Executions", "executionArn")?;
        let state_machine_arn = j.text_member("Executions", "stateMachineArn")?;
        let name = j.text_member("Executions", "name")?;
        let status = j.text_member("Executions", "status")?;
        let start_date = read_date_member(j, "Executions", "startDate")?;
        let stop_date = read_optional_date_member(j, "stopDate")?;
        Ok(Executions { execution_arn, state_machine_arn, name, status, start_date, stop_date })
    }

    /// Writes the value.
    pub fn to_json(&self) -> (out: Json)
        ensures
            out@ == execution_json(self@),
    {
        let mut members: Vec<(String, Json)> = Vec::new();
        members.push(entry("executionArn", Json::text(&self.execution_arn)));
        members.push(entry("stateMachineArn", Json::text(&self.state_machine_arn)));
        members.push(entry("name", Json::text(&self.name)));
        members.push(entry("status", Json::text(&self.status)));
        members.push(entry("startDate", Json::text(&self.start_date)));
        members.push(entry("stopDate", Json::optional_text(&self.stop_date)));
        proof {
            lemma_members_view(members@);
        }
        let out = Json::Object(members);
        assert(out@->Object_0 =~= execution_json(self@)->Object_0);
        out
    }
}

/// The description of one state machine: its names, and its definition as
/// JSON text.
#[derive(Debug, PartialEq, Eq)]
pub struct StateMachineDescriptor {
    /// The name by which the engine knows the state machine.
    pub state_machine_arn: String,
    /// The display name.
    pub name: String,
    /// The definition, as JSON text.
    pub definition: String,
}

/// The mathematical value of a [`StateMachineDescriptor`].
pub struct StateMachineDescriptorView {
    pub state_machine_arn: Seq<char>,
    pub name: Seq<char>,
    pub definition: Seq<char>,
}

impl View for StateMachineDescriptor {
    type V = StateMachineDescriptorView;

    open spec fn view(&self) -> StateMachineDescriptorView {
        StateMachineDescriptorView {
            state_machine_arn: self.state_machine_arn@,
            name: self.name@,
            definition: self.definition@,
        }
    }
}

/// The value that a JSON value stands for. Timestamps are brought into the
/// canonical form.
pub open spec fn descriptor_of(j: JsonView) -> Result<StateMachineDescriptorView, ErrorView> {
    let state_machine_arn = j.text_member("StateMachineDescriptor"@, "stateMachineArn"@);
    let name = j.text_member("StateMachineDescriptor"@, "name"@);
    let definition = j.text_member("StateMachineDescriptor"@, "definition"@);
    if state_machine_arn is Err {
        Err(state_machine_arn->Err_0)
    } else if name is Err {
        Err(name->Err_0)
    } else if definition is Err {
        Err(definition->Err_0)
    } else {
        Ok(
            StateMachineDescriptorView {
                state_machine_arn: state_machine_arn->Ok_0,
                name: name->Ok_0,
                definition: definition->Ok_0,
            },
        )
    }
}

/// The JSON value that stands for the value.
pub open spec fn descriptor_json(v: StateMachineDescriptorView) -> JsonView {
    JsonView::Object(
        seq![
            ("stateMachineArn"@, JsonView::Text(v.state_machine_arn)),
            ("name"@, JsonView::Text(v.name)),
            ("definition"@, JsonView::Text(v.definition)),
        ],
    )
}

impl StateMachineDescriptor {
    /// Reads the value; members that the model does not know are passed
    /// over.
    pub fn from_json(j: &Json) -> (out: Result<StateMachineDescriptor, TranslateError>)
        ensures
            outcome(out, |v: StateMachineDescriptor| v@) == descriptor_of(j@),
    {
        let state_machine_arn = j.text_member("StateMachineDescriptor", "stateMachineArn")?;
        let name = j.text_member("StateMachineDescriptor", "name")?;
        let definition = j.text_member("StateMachineDescriptor", "definition")?;
        Ok(StateMachineDescriptor { state_machine_arn, name, definition })
    }

    /// Writes the value.
    pub fn to_json(&self) -> (out: Json)
        ensures
            out@ == descriptor_json(self@),
    {
        let mut members: Vec<(String, Json)> = Vec::new();
        members.push(entry("stateMachineArn", Json::text(&self.state_machine_arn)));
        members.push(entry("name", Json::text(&self.name)));
        members.push(entry("definition", Json::text(&self.definition)));
        proof {
            lemma_members_view(members@);
        }
        let out = Json::Object(members);
        assert(out@->Object_0 =~= descriptor_json(self@)->Object_0);
        out
    }
}

/// Reads one item of a `stateMachines` array.
pub open spec fn state_machine_reader() -> spec_fn(JsonView) -> Result<
    StateMachineView,
    ErrorView,
> {
    |j: JsonView| state_machine_of(j)
}

/// The JSON values of a list, in order.
pub open spec fn state_machines_json(list: Seq<StateMachineView>) -> Seq<JsonView> {
    list.map_values(|v: StateMachineView| state_machine_json(v))
}

/// Reads the items of a `stateMachines` array, in the order of the document.
pub fn state_machines_from(items: &Vec<Json>) -> (out: Result<Vec<StateMachine>, TranslateError>)
    ensures
        outcome(out, |v: Vec<StateMachine>| views(v@)) == each(
            items_view(items@),
            state_machine_reader(),
        ),
{
    let ghost all = items_view(items@);
    let ghost read = state_machine_reader();
    proof {
        lemma_items_view(items@);
    }
    let mut out: Vec<StateMachine> = Vec::new();
    let mut i: usize = 0;
    assert(views(out@) =~= Seq::<StateMachineView>::empty());
    while i < items.len()
        invariant
            i <= items.len(),
            all == items_view(items@),
            read == state_machine_reader(),
            all.len() == items.len(),
            forall|k: int| 0 <= k < items.len() ==> #[trigger] all[k] == items[k]@,
            each(all.take(i as int), read) == Ok::<Seq<StateMachineView>, ErrorView>(views(out@)),
        decreases items.len() - i,
    {
        proof {
            lemma_each_next(all, read, i as int);
        }
        let ghost before = views(out@);
        match StateMachine::from_json(&items[i]) {
            Ok(value) => {
                out.push(value);
                assert(views(out@) =~= before.push(value@));
            },
            Err(e) => {
                proof {
                    lemma_each_fails(all, read, i + 1);
                }
                return Err(e);
            },
        }
        i += 1;
    }
    assert(all.take(i as int) =~= all);
    Ok(out)
}

/// Writes a list, in order.
pub fn state_machines_to_json(list: &Vec<StateMachine>) -> (out: Vec<Json>)
    ensures
        items_view(out@) == state_machines_json(views(list@)),
{
    let mut out: Vec<Json> = Vec::new();
    let mut i: usize = 0;
    while i < list.len()
        invariant
            i <= list.len(),
            out.len() == i,
            forall|k: int| 0 <= k < i ==> (#[trigger] out[k])@ == state_machine_json(list[k]@),
        decreases list.len() - i,
    {
        out.push(list[i].to_json());
        i += 1;
    }
    proof {
        lemma_items_view(out@);
    }
    assert(items_view(out@) =~= state_machines_json(views(list@)));
    out
}

/// Reads one item of a `executions` array.
pub open spec fn execution_reader() -> spec_fn(JsonView) -> Result<ExecutionsView, ErrorView> {
    |j: JsonView| execution_of(j)
}

/// The JSON values of a list, in order.
pub open spec fn executions_json(list: Seq<ExecutionsView>) -> Seq<JsonView> {
    list.map_values(|v: ExecutionsView| execution_json(v))
}

/// Reads the items of a `executions` array, in the order of the document.
pub fn executions_from(items: &Vec<Json>) -> (out: Result<Vec<Executions>, TranslateError>)
    ensures
        outcome(out, |v: Vec<Executions>| views(v@)) == each(
            items_view(items@),
            execution_reader(),
        ),
{
    let ghost all = items_view(items@);
    let ghost read = execution_reader();
    proof {
        lemma_items_view(items@);
    }
    let mut out: Vec<Executions> = Vec::new();
    let mut i: usize = 0;
    assert(views(out@) =~= Seq::<ExecutionsView>::empty());
    while i < items.len()
        invariant
            i <= items.len(),
            all == items_view(items@),
            read == execution_reader(),
            all.len() == items.len(),
            forall|k: int| 0 <= k < items.len() ==> #[trigger] all[k] == items[k]@,
            each(all.take(i as int), read) == Ok::<Seq<ExecutionsView>, ErrorView>(views(out@)),
        decreases items.len() - i,
    {
        proof {
            lemma_each_next(all, read, i as int);
        }
        let ghost before = views(out@);
        match Executions::from_json(&items[i]) {
            Ok(value) => {
                out.push(value);
                assert(views(out@) =~= before.push(value@));
            },
            Err(e) => {
                proof {
                    lemma_each_fails(all, read, i + 1);
                }
                return Err(e);
            },
        }
        i += 1;
    }
    assert(all.take(i as int) =~= all);
    Ok(out)
}

/// Writes a list, in order.
pub fn executions_to_json(list: &Vec<Executions>) -> (out: Vec<Json>)
    ensures
        items_view(out@) == executions_json(views(list@)),
{
    let mut out: Vec<Json> = Vec::new();
    let mut i: usize = 0;
    while i < list.len()
        invariant
            i <= list.len(),
            out.len() == i,
            forall|k: int| 0 <= k < i ==> (#[trigger] out[k])@ == execution_json(list[k]@),
        decreases list.len() - i,
    {
        out.push(list[i].to_json());
        i += 1;
    }
    proof {
        lemma_items_view(out@);
    }
    assert(items_view(out@) =~= executions_json(views(list@)));
    out
}

/// The state machines that the engine lists.
#[derive(Debug, PartialEq, Eq)]
pub struct StateMachineResponse {
    pub state_machines: Vec<StateMachine>,
}

/// The mathematical value of a [`StateMachineResponse`].
pub struct StateMachineResponseView {
    pub state_machines: Seq<StateMachineView>,
}

impl View for StateMachineResponse {
    type V = StateMachineResponseView;

    open spec fn view(&self) -> StateMachineResponseView {
        StateMachineResponseView { state_machines: views(self.state_machines@) }
    }
}

/// The list that a JSON value stands for: the items of its member `stateMachines`,
/// in their order.
pub open spec fn state_machine_response_of(j: JsonView) -> Result<
    StateMachineResponseView,
    ErrorView,
> {
    match then_each(
        j.array_member("StateMachineResponse"@, "stateMachines"@),
        state_machine_reader(),
    ) {
        Ok(state_machines) => Ok(StateMachineResponseView { state_machines }),
        Err(e) => Err(e),
    }
}

/// The JSON value that stands for the list: one member, `stateMachines`.
pub open spec fn state_machine_response_json(v: StateMachineResponseView) -> JsonView {
    JsonView::Object(
        seq![("stateMachines"@, JsonView::Array(state_machines_json(v.state_machines)))],
    )
}

impl StateMachineResponse {
    /// Reads the list. One item that cannot be read fails the whole.
    pub fn from_json(j: &Json) -> (out: Result<StateMachineResponse, TranslateError>)
        ensures
            outcome(out, |v: StateMachineResponse| v@) == state_machine_response_of(j@),
    {
        let items = j.array_member("StateMachineResponse", "stateMachines")?;
        let state_machines = state_machines_from(items)?;
        Ok(StateMachineResponse { state_machines })
    }

    /// Writes the list.
    pub fn to_json(&self) -> (out: Json)
        ensures
            out@ == state_machine_response_json(self@),
    {
        let mut members: Vec<(String, Json)> = Vec::new();
        members.push(
            entry("stateMachines", Json::Array(state_machines_to_json(&self.state_machines))),
        );
        proof {
            lemma_members_view(members@);
        }
        let out = Json::Object(members);
        assert(out@->Object_0 =~= state_machine_response_json(self@)->Object_0);
        out
    }
}

/// The runs of a state machine.
#[derive(Debug, PartialEq, Eq)]
pub struct ExecutionsResponse {
    pub executions: Vec<Executions>,
}

/// The mathematical value of a [`ExecutionsResponse`].
pub struct ExecutionsResponseView {
    pub executions: Seq<ExecutionsView>,
}

impl View for ExecutionsResponse {
    type V = ExecutionsResponseView;

    open spec fn view(&self) -> ExecutionsResponseView {
        ExecutionsResponseView { executions: views(self.executions@) }
    }
}

/// The list that a JSON value stands for: the items of its member `executions`,
/// in their order.
pub open spec fn executions_response_of(j: JsonView) -> Result<ExecutionsResponseView, ErrorView> {
    match then_each(j.array_member("ExecutionsResponse"@, "executions"@), execution_reader()) {
        Ok(executions) => Ok(ExecutionsResponseView { executions }),
        Err(e) => Err(e),
    }
}

/// The JSON value that stands for the list: one member, `executions`.
pub open spec fn executions_response_json(v: ExecutionsResponseView) -> JsonView {
    JsonView::Object(seq![("executions"@, JsonView::Array(executions_json(v.executions)))])
}

impl ExecutionsResponse {
    /// Reads the list. One item that cannot be read fails the whole.
    pub fn from_json(j: &Json) -> (out: Result<ExecutionsResponse, TranslateError>)
        ensures
            outcome(out, |v: ExecutionsResponse| v@) == executions_response_of(j@),
    {
        let items = j.array_member("ExecutionsResponse", "executions")?;
        let executions = executions_from(items)?;
        Ok(ExecutionsResponse { executions })
    }

    /// Writes the list.
    pub fn to_json(&self) -> (out: Json)
        ensures
            out@ == executions_response_json(self@),
    {
        let mut members: Vec<(String, Json)> = Vec::new();
        members.push(entry("executions", Json::Array(executions_to_json(&self.executions))));
        proof {
            lemma_members_view(members@);
        }
        let out = Json::Object(members);
        assert(out@->Object_0 =~= executions_response_json(self@)->Object_0);
        out
    }
}

/// The events of a run, in the order in which they happened.
#[derive(Debug, PartialEq, Eq)]
pub struct EventResponse {
    pub events: Vec<Event>,
}

/// The mathematical value of a [`EventResponse`].
pub struct EventResponseView {
    pub events: Seq<EventView>,
}

impl View for EventResponse {
    type V = EventResponseView;

    open spec fn view(&self) -> EventResponseView {
        EventResponseView { events: views(self.events@) }
    }
}

/// The list that a JSON value stands for: the items of its member `events`,
/// in their order.
pub open spec fn event_response_of(j: JsonView) -> Result<EventResponseView, ErrorView> {
    match then_each(j.array_member("EventResponse"@, "events"@), event_reader()) {
        Ok(events) => Ok(EventResponseView { events }),
        Err(e) => Err(e),
    }
}

/// The JSON value that stands for the list: one member, `events`.
pub open spec fn event_response_json(v: EventResponseView) -> JsonView {
    JsonView::Object(seq![("events"@, JsonView::Array(events_json(v.events)))])
}

impl EventResponse {
    /// Reads the list. One item that cannot be read fails the whole.
    pub fn from_json(j: &Json) -> (out: Result<EventResponse, TranslateError>)
        ensures
            outcome(out, |v: EventResponse| v@) == event_response_of(j@),
    {
        let items = j.array_member("EventResponse", "events")?;
        let events = events_from(items)?;
        Ok(EventResponse { events })
    }

    /// Writes the list.
    pub fn to_json(&self) -> (out: Json)
        ensures
            out@ == event_response_json(self@),
    {
        let mut members: Vec<(String, Json)> = Vec::new();
        members.push(entry("events", Json::Array(events_to_json(&self.events))));
        proof {
            lemma_members_view(members@);
        }
        let out = Json::Object(members);
        assert(out@->Object_0 =~= event_response_json(self@)->Object_0);
        out
    }
}

/// The answer to a request that failed: one message for the reader.
#[derive(Debug, PartialEq, Eq)]
pub struct ServerError {
    pub message: String,
}

/// The JSON value that stands for a failure: one member, `message`.
pub open spec fn server_error_json(message: Seq<char>) -> JsonView {
    JsonView::Object(seq![("message"@, JsonView::Text(message))])
}

impl ServerError {
    /// Writes the failure.
    pub fn to_json(&self) -> (out: Json)
        ensures
            out@ == server_error_json(self.message@),
    {
        let mut members: Vec<(String, Json)> = Vec::new();
        members.push(entry("message", Json::text(&self.message)));
        proof {
            lemma_members_view(members@);
        }
        let out = Json::Object(members);
        assert(out@->Object_0 =~= server_error_json(self.message@)->Object_0);
        out
    }
}

} // verus!

//! The history of a run: its events, in the order in which they happened.

use crate::details::{
    lemma_execution_started_round_trip, lemma_execution_succeeded_round_trip,
    lemma_lambda_function_failed_round_trip, lemma_lambda_function_scheduled_round_trip,
    lemma_state_entered_round_trip, lemma_state_exited_round_trip,
    execution_started_json, execution_started_of, execution_succeeded_json,
    execution_succeeded_of, lambda_function_failed_json, lambda_function_failed_of,
    lambda_function_scheduled_json, lambda_function_scheduled_of, state_entered_json,
    state_entered_of, state_exited_json, state_exited_of, ExecutionStartedEventDetails,
    ExecutionStartedEventDetailsView, ExecutionSucceededEventDetails,
    ExecutionSucceededEventDetailsView, LambdaFunctionFailedEventDetails,
    LambdaFunctionFailedEventDetailsView, LambdaFunctionScheduledEventDetails,
    LambdaFunctionScheduledEventDetailsView, StateEnteredEventDetails,
    StateEnteredEventDetailsView, StateExitedEventDetails, StateExitedEventDetailsView,
};
use crate::error::{ErrorView, TranslateError};
use crate::fields::{entry, outcome, schema_error};
use crate::json::{
    items_view, lemma_items_view, lemma_member_found, lemma_members_view, Json, JsonNumber,
    JsonView, NumberView,
};
use crate::list::{each, lemma_each_fails, lemma_each_keeps_order, lemma_each_next, views};
use crate::calendar::is_canonical;
use crate::timestamp::{canonical_of, float_to_date_string, lemma_canonical_timestamp_is_kept};
use vstd::prelude::*;

verus! {

/// One entry of a history. Which payload an event carries is not bound to
/// its kind: each of the six may be there or not.
#[derive(Debug, PartialEq, Eq)]
pub struct Event {
    /// When the event happened, in the canonical form.
    pub timestamp: String,
    /// The kind of the event, as the engine names it.
    pub kind: String,
    /// The number of the event within the history.
    pub id: u64,
    /// The number of the event that led to this one; absent for the first.
    pub previous_event_id: Option<u64>,
    pub execution_started_event_details: Option<ExecutionStartedEventDetails>,
    pub state_entered_event_details: Option<StateEnteredEventDetails>,
    pub state_exited_event_details: Option<StateExitedEventDetails>,
    pub lambda_function_scheduled_event_details: Option<LambdaFunctionScheduledEventDetails>,
    pub lambda_function_failed_event_details: Option<LambdaFunctionFailedEventDetails>,
    pub execution_succeeded_event_details: Option<ExecutionSucceededEventDetails>,
}

/// The mathematical value of an [`Event`].
pub struct EventView {
    pub timestamp: Seq<char>,
    pub kind: Seq<char>,
    pub id: u64,
    pub previous_event_id: Option<u64>,
    pub execution_started_event_details: Option<ExecutionStartedEventDetailsView>,
    pub state_entered_event_details: Option<StateEnteredEventDetailsView>,
    pub state_exited_event_details: Option<StateExitedEventDetailsView>,
    pub lambda_function_scheduled_event_details: Option<LambdaFunctionScheduledEventDetailsView>,
    pub lambda_function_failed_event_details: Option<LambdaFunctionFailedEventDetailsView>,
    pub execution_succeeded_event_details: Option<ExecutionSucceededEventDetailsView>,
}

/// The view of an optional value.
pub open spec fn optional_view<T: View>(o: Option<T>) -> Option<T::V> {
    match o {
        Some(value) => Some(value@),
        None => None,
    }
}

impl View for Event {
    type V = EventView;

    open spec fn view(&self) -> EventView {
        EventView {
            timestamp: self.timestamp@,
            kind: self.kind@,
            id: self.id,
            previous_event_id: self.previous_event_id,
            execution_started_event_details: optional_view(self.execution_started_event_details),
            state_entered_event_details: optional_view(self.state_entered_event_details),
            state_exited_event_details: optional_view(self.state_exited_event_details),
            lambda_function_scheduled_event_details: optional_view(
                self.lambda_function_scheduled_event_details,
            ),
            lambda_function_failed_event_details: optional_view(
                self.lambda_function_failed_event_details,
            ),
            execution_succeeded_event_details: optional_view(
                self.execution_succeeded_event_details,
            ),
        }
    }
}

/// A payload that may be absent: read where the member is there.
pub open spec fn optional_details<T>(
    j: JsonView,
    key: Seq<char>,
    read: spec_fn(JsonView) -> Result<T, ErrorView>,
) -> Result<Option<T>, ErrorView> {
    match j.optional_member(key) {
        None => Ok(None),
        Some(value) => match read(value) {
            Ok(details) => Ok(Some(details)),
            Err(e) => Err(e),
        },
    }
}

/// The timestamp of the event `id`, in the canonical form. A missing
/// timestamp is a schema error; one that cannot be brought into the form is
/// a translation error that names the event.
pub open spec fn event_timestamp(j: JsonView, id: u64) -> Result<Seq<char>, ErrorView> {
    match j.get("timestamp"@) {
        Some(value) => match canonical_of(value) {
            Ok(text) => Ok(text),
            Err(_) => Err(ErrorView::TranslationError { event_id: id }),
        },
        None => Err(schema_error("Event"@, "timestamp"@)),
    }
}

/// The event that a JSON value stands for.
pub open spec fn event_of(j: JsonView) -> Result<EventView, ErrorView> {
    let id = j.u64_member("Event"@, "id"@);
    let timestamp = if id is Ok {
        event_timestamp(j, id->Ok_0)
    } else {
        Err(id->Err_0)
    };
    let kind = j.text_member("Event"@, "type"@);
    let previous = j.optional_u64_member("Event"@, "previousEventId"@);
    let started = optional_details(
        j,
        "executionStartedEventDetails"@,
        |v: JsonView| execution_started_of(v),
    );
    let entered = optional_details(
        j,
        "stateEnteredEventDetails"@,
        |v: JsonView| state_entered_of(v),
    );
    let exited = optional_details(j, "stateExitedEventDetails"@, |v: JsonView| state_exited_of(v));
    let scheduled = optional_details(
        j,
        "lambdaFunctionScheduledEventDetails"@,
        |v: JsonView| lambda_function_scheduled_of(v),
    );
    let failed = optional_details(
        j,
        "lambdaFunctionFailedEventDetails"@,
        |v: JsonView| lambda_function_failed_of(v),
    );
    let succeeded = optional_details(
        j,
        "executionSucceededEventDetails"@,
        |v: JsonView| execution_succeeded_of(v),
    );
    if id is Err {
        Err(id->Err_0)
    } else if timestamp is Err {
        Err(timestamp->Err_0)
    } else if kind is Err {
        Err(kind->Err_0)
    } else if previous is Err {
        Err(previous->Err_0)
    } else if started is Err {
        Err(started->Err_0)
    } else if entered is Err {
        Err(entered->Err_0)
    } else if exited is Err {
        Err(exited->Err_0)
    } else if scheduled is Err {
        Err(scheduled->Err_0)
    } else if failed is Err {
        Err(failed->Err_0)
    } else if succeeded is Err {
        Err(succeeded->Err_0)
    } else {
        Ok(
            EventView {
                timestamp: timestamp->Ok_0,
                kind: kind->Ok_0,
                id: id->Ok_0,
                previous_event_id: previous->Ok_0,
                execution_started_event_details: started->Ok_0,
                state_entered_event_details: entered->Ok_0,
                state_exited_event_details: exited->Ok_0,
                lambda_function_scheduled_event_details: scheduled->Ok_0,
                lambda_function_failed_event_details: failed->Ok_0,
                execution_succeeded_event_details: succeeded->Ok_0,
            },
        )
    }
}

/// The JSON value of an optional payload: the payload, or `null`.
pub open spec fn details_or_null<T>(o: Option<T>, write: spec_fn(T) -> JsonView) -> JsonView {
    match o {
        Some(details) => write(details),
        None => JsonView::Null,
    }
}

/// The JSON value of an optional number: the number, or `null`.
pub open spec fn number_or_null(o: Option<u64>) -> JsonView {
    match o {
        Some(n) => JsonView::Number(NumberView::Unsigned(n)),
        None => JsonView::Null,
    }
}

/// The JSON value that stands for an event.
pub open spec fn event_json(e: EventView) -> JsonView {
    JsonView::Object(
        seq![
            ("timestamp"@, JsonView::Text(e.timestamp)),
            ("type"@, JsonView::Text(e.kind)),
            ("id"@, JsonView::Number(NumberView::Unsigned(e.id))),
            ("previousEventId"@, number_or_null(e.previous_event_id)),
            (
                "executionStartedEventDetails"@,
                details_or_null(
                    e.execution_started_event_details,
                    |d: ExecutionStartedEventDetailsView| execution_started_json(d),
                ),
            ),
            (
                "stateEnteredEventDetails"@,
                details_or_null(
                    e.state_entered_event_details,
                    |d: StateEnteredEventDetailsView| state_entered_json(d),
                ),
            ),
            (
                "stateExitedEventDetails"@,
                details_or_null(
                    e.state_exited_event_details,
                    |d: StateExitedEventDetailsView| state_exited_json(d),
                ),
            ),
            (
                "lambdaFunctionScheduledEventDetails"@,
                details_or_null(
                    e.lambda_function_scheduled_event_details,
                    |d: LambdaFunctionScheduledEventDetailsView| lambda_function_scheduled_json(d),
                ),
            ),
            (
                "lambdaFunctionFailedEventDetails"@,
                details_or_null(
                    e.lambda_function_failed_event_details,
                    |d: LambdaFunctionFailedEventDetailsView| lambda_function_failed_json(d),
                ),
            ),
            (
                "executionSucceededEventDetails"@,
                details_or_null(
                    e.execution_succeeded_event_details,
                    |d: ExecutionSucceededEventDetailsView| execution_succeeded_json(d),
                ),
            ),
        ],
    )
}

/// An event whose timestamp is in the canonical form, written and read
/// again, is the same event.
pub proof fn lemma_event_round_trip(e: EventView)
    requires
        is_canonical(e.timestamp),
    ensures
        event_of(event_json(e)) == Ok::<EventView, ErrorView>(e),
{
    reveal_strlit("timestamp");
    reveal_strlit("type");
    reveal_strlit("id");
    reveal_strlit("previousEventId");
    reveal_strlit("executionStartedEventDetails");
    reveal_strlit("stateEnteredEventDetails");
    reveal_strlit("stateExitedEventDetails");
    reveal_strlit("lambdaFunctionScheduledEventDetails");
    reveal_strlit("lambdaFunctionFailedEventDetails");
    reveal_strlit("executionSucceededEventDetails");
    let members = event_json(e)->Object_0;
    assert("timestamp"@.len() == 9 && "type"@.len() == 4 && "id"@.len() == 2);
    assert("previousEventId"@.len() == 15);
    assert("executionStartedEventDetails"@.len() == 28);
    assert("stateEnteredEventDetails"@.len() == 24);
    assert("stateExitedEventDetails"@.len() == 23);
    assert("lambdaFunctionScheduledEventDetails"@.len() == 35);
    assert("lambdaFunctionFailedEventDetails"@.len() == 32);
    assert("executionSucceededEventDetails"@.len() == 30);
    lemma_member_found(members, 0, "timestamp"@);
    lemma_member_found(members, 1, "type"@);
    lemma_member_found(members, 2, "id"@);
    lemma_member_found(members, 3, "previousEventId"@);
    lemma_member_found(members, 4, "executionStartedEventDetails"@);
    lemma_member_found(members, 5, "stateEnteredEventDetails"@);
    lemma_member_found(members, 6, "stateExitedEventDetails"@);
    lemma_member_found(members, 7, "lambdaFunctionScheduledEventDetails"@);
    lemma_member_found(members, 8, "lambdaFunctionFailedEventDetails"@);
    lemma_member_found(members, 9, "executionSucceededEventDetails"@);
    lemma_canonical_timestamp_is_kept(e.timestamp);
    if e.execution_started_event_details is Some {
        lemma_execution_started_round_trip(e.execution_started_event_details->Some_0);
    }
    if e.state_entered_event_details is Some {
        lemma_state_entered_round_trip(e.state_entered_event_details->Some_0);
    }
    if e.state_exited_event_details is Some {
        lemma_state_exited_round_trip(e.state_exited_event_details->Some_0);
    }
    if e.lambda_function_scheduled_event_details is Some {
        lemma_lambda_function_scheduled_round_trip(
            e.lambda_function_scheduled_event_details->Some_0,
        );
    }
    if e.lambda_function_failed_event_details is Some {
        lemma_lambda_function_failed_round_trip(e.lambda_function_failed_event_details->Some_0);
    }
    if e.execution_succeeded_event_details is Some {
        lemma_execution_succeeded_round_trip(e.execution_succeeded_event_details->Some_0);
    }
}

impl Event {
    /// Reads an event. `id`, `timestamp` and `type` are required; the
    /// timestamp is brought into the canonical form. Each payload is read
    /// where its member is there, whatever the kind of the event.
    pub fn from_json(j: &Json) -> (out: Result<Event, TranslateError>)
        ensures
            outcome(out, |e: Event| e@) == event_of(j@),
    {
        let id = j.u64_member("Event", "id")?;
        let timestamp = match j.get("timestamp") {
            Some(value) => match float_to_date_string(value) {
                Ok(text) => text,
                Err(_) => {
                    return Err(TranslateError::TranslationError { event_id: id });
                },
            },
            None => {
                return Err(TranslateError::schema("Event", "timestamp"));
            },
        };
        let kind = j.text_member("Event", "type")?;
        let previous_event_id = j.optional_u64_member("Event", "previousEventId")?;
        let execution_started_event_details = match j.optional_member(
            "executionStartedEventDetails",
        ) {
            Some(value) => Some(ExecutionStartedEventDetails::from_json(value)?),
            None => None,
        };
        let state_entered_event_details = match j.optional_member("stateEnteredEventDetails") {
            Some(value) => Some(StateEnteredEventDetails::from_json(value)?),
            None => None,
        };
        let state_exited_event_details = match j.optional_member("stateExitedEventDetails") {
            Some(value) => Some(StateExitedEventDetails::from_json(value)?),
            None => None,
        };
        let lambda_function_scheduled_event_details = match j.optional_member(
            "lambdaFunctionScheduledEventDetails",
        ) {
            Some(value) => Some(LambdaFunctionScheduledEventDetails::from_json(value)?),
            None => None,
        };
        let lambda_function_failed_event_details = match j.optional_member(
            "lambdaFunctionFailedEventDetails",
        ) {
            Some(value) => Some(LambdaFunctionFailedEventDetails::from_json(value)?),
            None => None,
        };
        let execution_succeeded_event_details = match j.optional_member(
            "executionSucceededEventDetails",
        ) {
            Some(value) => Some(ExecutionSucceededEventDetails::from_json(value)?),
            None => None,
        };
        Ok(
            Event {
                timestamp,
                kind,
                id,
                previous_event_id,
                execution_started_event_details,
                state_entered_event_details,
                state_exited_event_details,
                lambda_function_scheduled_event_details,
                lambda_function_failed_event_details,
                execution_succeeded_event_details,
            },
        )
    }

    /// Writes the event. An absent member is written as `null`.
    pub fn to_json(&self) -> (out: Json)
        ensures
            out@ == event_json(self@),
    {
        let mut members: Vec<(String, Json)> = Vec::new();
        members.push(entry("timestamp", Json::text(&self.timestamp)));
        members.push(entry("type", Json::text(&self.kind)));
        members.push(entry("id", Json::Number(JsonNumber::Unsigned(self.id))));
        let previous = match self.previous_event_id {
            Some(n) => Json::Number(JsonNumber::Unsigned(n)),
            None => Json::Null,
        };
        members.push(entry("previousEventId", previous));
        let started = match &self.execution_started_event_details {
            Some(d) => d.to_json(),
            None => Json::Null,
        };
        members.push(entry("executionStartedEventDetails", started));
        let entered = match &self.state_entered_event_details {
            Some(d) => d.to_json(),
            None => Json::Null,
        };
        members.push(entry("stateEnteredEventDetails", entered));
        let exited = match &self.state_exited_event_details {
            Some(d) => d.to_json(),
            None => Json::Null,
        };
        members.push(entry("stateExitedEventDetails", exited));
        let scheduled = match &self.lambda_function_scheduled_event_details {
            Some(d) => d.to_json(),
            None => Json::Null,
        };
        members.push(entry("lambdaFunctionScheduledEventDetails", scheduled));
        let failed = match &self.lambda_function_failed_event_details {
            Some(d) => d.to_json(),
            None => Json::Null,
        };
        members.push(entry("lambdaFunctionFailedEventDetails", failed));
        let succeeded = match &self.execution_succeeded_event_details {
            Some(d) => d.to_json(),
            None => Json::Null,
        };
        members.push(entry("executionSucceededEventDetails", succeeded));
        proof {
            lemma_members_view(members@);
        }
        let out = Json::Object(members);
        assert(out@->Object_0 =~= event_json(self@)->Object_0);
        out
    }
}

/// Reads one event; the reader of the items of an `events` array.
pub open spec fn event_reader() -> spec_fn(JsonView) -> Result<EventView, ErrorView> {
    |j: JsonView| event_of(j)
}

/// The JSON values of a list of events, in order.
pub open spec fn events_json(events: Seq<EventView>) -> Seq<JsonView> {
    events.map_values(|e: EventView| event_json(e))
}

/// Reads the events of a history, in the order of the document. The first
/// event that cannot be read ends the translation with its error.
pub fn events_from(items: &Vec<Json>) -> (out: Result<Vec<Event>, TranslateError>)
    ensures
        outcome(out, |v: Vec<Event>| views(v@)) == each(items_view(items@), event_reader()),
{
    let ghost all = items_view(items@);
    let ghost read = event_reader();
    proof {
        lemma_items_view(items@);
    }
    let mut out: Vec<Event> = Vec::new();
    let mut i: usize = 0;
    assert(views(out@) =~= Seq::<EventView>::empty());
    while i < items.len()
        invariant
            i <= items.len(),
            all == items_view(items@),
            read == event_reader(),
            all.len() == items.len(),
            forall|k: int| 0 <= k < items.len() ==> #[trigger] all[k] == items[k]@,
            each(all.take(i as int), read) == Ok::<Seq<EventView>, ErrorView>(views(out@)),
        decreases items.len() - i,
    {
        proof {
            lemma_each_next(all, read, i as int);
        }
        let ghost before = views(out@);
        match Event::from_json(&items[i]) {
            Ok(event) => {
                out.push(event);
                assert(views(out@) =~= before.push(event@));
            },
            Err(e) => {
                proof {
                    lemma_each_fails(all, read, i + 1);
                }
                return Err(e);
            },
        }
        i += 1;
    }
    assert(all.take(i as int) =~= all);
    Ok(out)
}

/// Writes a list of events, in order.
pub fn events_to_json(events: &Vec<Event>) -> (out: Vec<Json>)
    ensures
        items_view(out@) == events_json(views(events@)),
{
    let mut out: Vec<Json> = Vec::new();
    let mut i: usize = 0;
    while i < events.len()
        invariant
            i <= events.len(),
            out.len() == i,
            forall|k: int| 0 <= k < i ==> (#[trigger] out[k])@ == event_json(events[k]@),
        decreases events.len() - i,
    {
        out.push(events[i].to_json());
        i += 1;
    }
    proof {
        lemma_items_view(out@);
    }
    assert(items_view(out@) =~= events_json(views(events@)));
    out
}

/// The order of a history is kept: where the events of an array are read,
/// there is one event for each item, the event at each place is the one
/// that the item at that place stands for, and it has the `id` that the
/// item gives.
pub proof fn lemma_events_keep_order(items: Seq<JsonView>)
    requires
        each(items, event_reader()) is Ok,
    ensures
        each(items, event_reader())->Ok_0.len() == items.len(),
        forall|i: int|
            0 <= i < items.len() ==> event_of(#[trigger] items[i]) == Ok::<EventView, ErrorView>(
                each(items, event_reader())->Ok_0[i],
            ),
        forall|i: int|
            0 <= i < items.len() ==> (#[trigger] items[i]).u64_member("Event"@, "id"@) == Ok::<
                u64,
                ErrorView,
            >(each(items, event_reader())->Ok_0[i].id),
{
    lemma_each_keeps_order(items, event_reader());
    assert forall|i: int| 0 <= i < items.len() implies event_of(#[trigger] items[i]) == Ok::<
        EventView,
        ErrorView,
    >(each(items, event_reader())->Ok_0[i]) by {
        assert(event_reader()(items[i]) == event_of(items[i]));
    }
}

/// Whether the events number themselves in ascending order, so that no
/// number occurs twice, and every event but the first names the event that
/// led to it.
pub open spec fn is_well_ordered(events: Seq<EventView>) -> bool {
    &&& forall|i: int, j: int|
        0 <= i < j < events.len() ==> (#[trigger] events[i]).id < (#[trigger] events[j]).id
    &&& forall|i: int| 0 < i < events.len() ==> (#[trigger] events[i]).previous_event_id is Some
}

/// Whether the events of a history number themselves in ascending order
/// and every event but the first names the event that led to it.
pub fn check_order(events: &Vec<Event>) -> (out: bool)
    ensures
        out == is_well_ordered(views(events@)),
{
    let ghost all = views(events@);
    let mut i: usize = 1;
    while i < events.len()
        invariant
            1 <= i,
            all == views(events@),
            forall|a: int, b: int|
                0 <= a < b < i && b < all.len() ==> (#[trigger] all[a]).id < (
                #[trigger] all[b]).id,
            forall|a: int|
                0 < a < i && a < all.len() ==> (#[trigger] all[a]).previous_event_id is Some,
        decreases events.len() - i,
    {
        if events[i - 1].id >= events[i].id {
            assert(all[i - 1].id >= all[i as int].id);
            return false;
        }
        if events[i].previous_event_id.is_none() {
            assert(all[i as int].previous_event_id is None);
            return false;
        }
        assert forall|a: int, b: int| 0 <= a < b < i + 1 && b < all.len() implies (
        #[trigger] all[a]).id < (#[trigger] all[b]).id by {
            if b == i {
                assert(all[a].id <= all[i - 1].id);
            }
        }
        i += 1;
    }
    true
}

} // verus!

//! The payload of an event as its kind selects it.
//!
//! An event is read with every payload that its document holds. The kind of
//! the event says which of them is its own.

use crate::details::{
    ExecutionStartedEventDetails, ExecutionStartedEventDetailsView,
    ExecutionSucceededEventDetails, ExecutionSucceededEventDetailsView,
    LambdaFunctionFailedEventDetails, LambdaFunctionFailedEventDetailsView,
    LambdaFunctionScheduledEventDetails, LambdaFunctionScheduledEventDetailsView,
    StateEnteredEventDetails, StateEnteredEventDetailsView, StateExitedEventDetails,
    StateExitedEventDetailsView,
};
use crate::history::{Event, EventView};
use vstd::prelude::*;
use vstd::string::StringExecFns;

verus! {

/// The payload that belongs to the kind of an event.
#[derive(Debug, PartialEq, Eq)]
pub enum Payload<'a> {
    ExecutionStarted(&'a ExecutionStartedEventDetails),
    StateEntered(&'a StateEnteredEventDetails),
    StateExited(&'a StateExitedEventDetails),
    LambdaFunctionScheduled(&'a LambdaFunctionScheduledEventDetails),
    LambdaFunctionFailed(&'a LambdaFunctionFailedEventDetails),
    ExecutionSucceeded(&'a ExecutionSucceededEventDetails),
    /// The kind of the event has no payload, or the event does not carry
    /// it.
    Empty,
}

/// The mathematical value of a [`Payload`].
pub enum PayloadView {
    ExecutionStarted(ExecutionStartedEventDetailsView),
    StateEntered(StateEnteredEventDetailsView),
    StateExited(StateExitedEventDetailsView),
    LambdaFunctionScheduled(LambdaFunctionScheduledEventDetailsView),
    LambdaFunctionFailed(LambdaFunctionFailedEventDetailsView),
    ExecutionSucceeded(ExecutionSucceededEventDetailsView),
    Empty,
}

impl<'a> View for Payload<'a> {
    type V = PayloadView;

    open spec fn view(&self) -> PayloadView {
        match self {
            Payload::ExecutionStarted(d) => PayloadView::ExecutionStarted(d@),
            Payload::StateEntered(d) => PayloadView::StateEntered(d@),
            Payload::StateExited(d) => PayloadView::StateExited(d@),
            Payload::LambdaFunctionScheduled(d) => PayloadView::LambdaFunctionScheduled(d@),
            Payload::LambdaFunctionFailed(d) => PayloadView::LambdaFunctionFailed(d@),
            Payload::ExecutionSucceeded(d) => PayloadView::ExecutionSucceeded(d@),
            Payload::Empty => PayloadView::Empty,
        }
    }
}

/// The payload that the kind of an event selects: the details that are
/// named after the kind, where the event carries them.
pub open spec fn payload_of(e: EventView) -> PayloadView {
    if e.kind == "ExecutionStarted"@ {
        match e.execution_started_event_details {
            Some(d) => PayloadView::ExecutionStarted(d),
            None => PayloadView::Empty,
        }
    } else if e.kind == "StateEntered"@ {
        match e.state_entered_event_details {
            Some(d) => PayloadView::StateEntered(d),
            None => PayloadView::Empty,
        }
    } else if e.kind == "StateExited"@ {
        match e.state_exited_event_details {
            Some(d) => PayloadView::StateExited(d),
            None => PayloadView::Empty,
        }
    } else if e.kind == "LambdaFunctionScheduled"@ {
        match e.lambda_function_scheduled_event_details {
            Some(d) => PayloadView::LambdaFunctionScheduled(d),
            None => PayloadView::Empty,
        }
    } else if e.kind == "LambdaFunctionFailed"@ {
        match e.lambda_function_failed_event_details {
            Some(d) => PayloadView::LambdaFunctionFailed(d),
            None => PayloadView::Empty,
        }
    } else if e.kind == "ExecutionSucceeded"@ {
        match e.execution_succeeded_event_details {
            Some(d) => PayloadView::ExecutionSucceeded(d),
            None => PayloadView::Empty,
        }
    } else {
        PayloadView::Empty
    }
}

/// Whether every payload that an event carries is the one that its kind
/// selects. An event without any payload is consistent, whatever its kind.
pub open spec fn is_consistent(e: EventView) -> bool {
    &&& e.execution_started_event_details is Some ==> e.kind == "ExecutionStarted"@
    &&& e.state_entered_event_details is Some ==> e.kind == "StateEntered"@
    &&& e.state_exited_event_details is Some ==> e.kind == "StateExited"@
    &&& e.lambda_function_scheduled_event_details is Some ==> e.kind
        == "LambdaFunctionScheduled"@
    &&& e.lambda_function_failed_event_details is Some ==> e.kind == "LambdaFunctionFailed"@
    &&& e.execution_succeeded_event_details is Some ==> e.kind == "ExecutionSucceeded"@
}

/// A consistent event carries at most one payload, and that one is what its
/// kind selects.
pub proof fn lemma_consistent_event_has_one_payload(e: EventView)
    requires
        is_consistent(e),
    ensures
        e.execution_started_event_details is Some ==> payload_of(e)
            == PayloadView::ExecutionStarted(e.execution_started_event_details->Some_0),
        e.state_entered_event_details is Some ==> payload_of(e) == PayloadView::StateEntered(
            e.state_entered_event_details->Some_0,
        ),
        e.state_exited_event_details is Some ==> payload_of(e) == PayloadView::StateExited(
            e.state_exited_event_details->Some_0,
        ),
        e.lambda_function_scheduled_event_details is Some ==> payload_of(e)
            == PayloadView::LambdaFunctionScheduled(
            e.lambda_function_scheduled_event_details->Some_0,
        ),
        e.lambda_function_failed_event_details is Some ==> payload_of(e)
            == PayloadView::LambdaFunctionFailed(e.lambda_function_failed_event_details->Some_0),
        e.execution_succeeded_event_details is Some ==> payload_of(e)
            == PayloadView::ExecutionSucceeded(e.execution_succeeded_event_details->Some_0),
        payload_of(e) is Empty ==> e.execution_started_event_details is None
            && e.state_entered_event_details is None && e.state_exited_event_details is None
            && e.lambda_function_scheduled_event_details is None
            && e.lambda_function_failed_event_details is None
            && e.execution_succeeded_event_details is None,
{
    reveal_strlit("ExecutionStarted");
    reveal_strlit("StateEntered");
    reveal_strlit("StateExited");
    reveal_strlit("LambdaFunctionScheduled");
    reveal_strlit("LambdaFunctionFailed");
    reveal_strlit("ExecutionSucceeded");
    assert("ExecutionStarted"@.len() == 16 && "StateEntered"@.len() == 12 && "StateExited"@.len()
        == 11);
    assert("LambdaFunctionScheduled"@.len() == 23 && "LambdaFunctionFailed"@.len() == 20
        && "ExecutionSucceeded"@.len() == 18);
}

/// Whether a kind is the one named.
fn kind_is(kind: &String, name: &str) -> (out: bool)
    ensures
        out == (kind@ == name@),
{
    *kind == String::from_str(name)
}

impl Event {
    /// The payload that the kind of the event selects.
    pub fn payload(&self) -> (out: Payload<'_>)
        ensures
            out@ == payload_of(self@),
    {
        if kind_is(&self.kind, "ExecutionStarted") {
            match &self.execution_started_event_details {
                Some(d) => Payload::ExecutionStarted(d),
                None => Payload::Empty,
            }
        } else if kind_is(&self.kind, "StateEntered") {
            match &self.state_entered_event_details {
                Some(d) => Payload::StateEntered(d),
                None => Payload::Empty,
            }
        } else if kind_is(&self.kind, "StateExited") {
            match &self.state_exited_event_details {
                Some(d) => Payload::StateExited(d),
                None => Payload::Empty,
            }
        } else if kind_is(&self.kind, "LambdaFunctionScheduled") {
            match &self.lambda_function_scheduled_event_details {
                Some(d) => Payload::LambdaFunctionScheduled(d),
                None => Payload::Empty,
            }
        } else if kind_is(&self.kind, "LambdaFunctionFailed") {
            match &self.lambda_function_failed_event_details {
                Some(d) => Payload::LambdaFunctionFailed(d),
                None => Payload::Empty,
            }
        } else if kind_is(&self.kind, "ExecutionSucceeded") {
            match &self.execution_succeeded_event_details {
                Some(d) => Payload::ExecutionSucceeded(d),
                None => Payload::Empty,
            }
        } else {
            Payload::Empty
        }
    }

    /// Whether every payload that the event carries is the one that its
    /// kind selects.
    pub fn is_consistent(&self) -> (out: bool)
        ensures
            out == is_consistent(self@),
    {
        (self.execution_started_event_details.is_none() || kind_is(
            &self.kind,
            "ExecutionStarted",
        )) && (self.state_entered_event_details.is_none() || kind_is(&self.kind, "StateEntered"))
            && (self.state_exited_event_details.is_none() || kind_is(&self.kind, "StateExited"))
            && (self.lambda_function_scheduled_event_details.is_none() || kind_is(
            &self.kind,
            "LambdaFunctionScheduled",
        )) && (self.lambda_function_failed_event_details.is_none() || kind_is(
            &self.kind,
            "LambdaFunctionFailed",
        )) && (self.execution_succeeded_event_details.is_none() || kind_is(
            &self.kind,
            "ExecutionSucceeded",
        ))
    }
}

} // verus!

//! The request dispatcher: the decisions taken for one inbound request, as a
//! state machine. Whoever drives it performs each action and reports what came
//! of it as the next event.

use crate::audit::LogError;
use crate::extract::{extract, extraction, payload_member, ExtractionError};
use crate::forward::{OutboundMessage, TransportError};
use crate::json::{json_text, parse_value, parsed_json, value_text};
use crate::route::{matched_route, route_key, RouteTable, RouteView};
use vstd::prelude::*;

verus! {

/// How a request ends, as far as its sender is told.
#[derive(Clone, Copy, Debug, PartialEq, Eq, Structural)]
pub enum Response {
    /// No route answers to the path.
    NotFound,
    /// The body is not JSON.
    MalformedBody,
    /// The body has no payload to relay.
    MissingField,
    /// The target answered with this status.
    Downstream(u16),
    /// The target could not be reached.
    ForwardFailed,
}

/// The HTTP status that tells of `response`. A downstream status is passed on
/// as it came.
pub open spec fn status_of(response: Response) -> u16 {
    match response {
        Response::NotFound => 404,
        Response::MalformedBody => 400,
        Response::MissingField => 422,
        Response::Downstream(code) => code,
        Response::ForwardFailed => 502,
    }
}

impl Response {
    /// The HTTP status of this response.
    pub fn status(self) -> (code: u16)
        ensures
            code == status_of(self),
    {
        match self {
            Response::NotFound => 404,
            Response::MalformedBody => 400,
            Response::MissingField => 422,
            Response::Downstream(code) => code,
            Response::ForwardFailed => 502,
        }
    }

    /// The response to a request whose payload could not be extracted.
    pub fn from_extraction_error(e: ExtractionError) -> (r: Response)
        ensures
            r == rejection(e),
    {
        match e {
            ExtractionError::MissingField => Response::MissingField,
        }
    }

    /// The response once the forward has ended: the target's own status where
    /// it answered, `ForwardFailed` where the transport gave up.
    pub fn from_forward(outcome: &Result<u16, TransportError>) -> (r: Response)
        ensures
            r == conclusion(
                match outcome {
                    Ok(code) => Ok(*code),
                    Err(e) => Err(e.cause@),
                },
            ),
    {
        match outcome {
            Ok(code) => Response::Downstream(*code),
            Err(_) => Response::ForwardFailed,
        }
    }
}

/// The response to a request whose payload could not be extracted.
pub open spec fn rejection(e: ExtractionError) -> Response {
    match e {
        ExtractionError::MissingField => Response::MissingField,
    }
}

/// The response once the forward has ended: the target's own status where it
/// answered, `ForwardFailed` where the transport gave up.
pub open spec fn conclusion(outcome: Result<u16, Seq<char>>) -> Response {
    match outcome {
        Ok(code) => Response::Downstream(code),
        Err(_) => Response::ForwardFailed,
    }
}

/// An inbound request: the path it was made to, below the mount point and
/// without the leading slash, and the JSON document in its body.
#[derive(Debug)]
pub struct InboundRequest {
    pub request_path: String,
    pub body: serde_json::Value,
}

/// An inbound request as contracts see it.
pub struct RequestView {
    pub request_path: Seq<char>,
    pub body: serde_json::Value,
}

impl View for InboundRequest {
    type V = RequestView;

    open spec fn view(&self) -> RequestView {
        RequestView { request_path: self.request_path@, body: self.body }
    }
}

/// What happened, as the driver reports it to the dispatcher.
#[derive(Debug)]
pub enum Event {
    /// A request came in.
    Arrived(InboundRequest),
    /// The audit record was written, or could not be.
    AuditDone(Result<(), LogError>),
    /// The forward ended, with the target's status or with a transport error.
    Forwarded(Result<u16, TransportError>),
}

/// An event as contracts see it.
pub enum EventView {
    Arrived(RequestView),
    AuditDone(Result<(), LogError>),
    Forwarded(Result<u16, Seq<char>>),
}

impl View for Event {
    type V = EventView;

    open spec fn view(&self) -> EventView {
        match self {
            Event::Arrived(request) => EventView::Arrived(request@),
            Event::AuditDone(outcome) => EventView::AuditDone(*outcome),
            Event::Forwarded(outcome) => EventView::Forwarded(
                match outcome {
                    Ok(code) => Ok(*code),
                    Err(e) => Err(e.cause@),
                },
            ),
        }
    }
}

/// What the driver is to do next.
#[derive(Debug, PartialEq, Eq)]
pub enum Action {
    /// Write `contents` as an audit record, then report `AuditDone`.
    WriteAudit { contents: String },
    /// Send `message` to `target_url`, once, then report `Forwarded`.
    Forward { target_url: String, message: OutboundMessage },
    /// Answer the request. Nothing follows.
    Respond(Response),
    /// The event came out of turn; there is nothing to do.
    Ignore,
}

/// An action as contracts see it.
pub enum ActionView {
    WriteAudit { contents: Seq<char> },
    Forward { target_url: Seq<char>, content: Seq<char> },
    Respond(Response),
    Ignore,
}

impl View for Action {
    type V = ActionView;

    open spec fn view(&self) -> ActionView {
        match self {
            Action::WriteAudit { contents } => ActionView::WriteAudit { contents: contents@ },
            Action::Forward { target_url, message } => ActionView::Forward {
                target_url: target_url@,
                content: message.content@,
            },
            Action::Respond(response) => ActionView::Respond(*response),
            Action::Ignore => ActionView::Ignore,
        }
    }
}

/// How far the handling of a request has come.
#[derive(Debug, PartialEq, Eq)]
pub enum Phase {
    /// No request yet.
    Idle,
    /// The audit record is being written. `target_url` and `payload` say what
    /// follows once that has ended.
    Auditing { target_url: String, payload: Result<String, ExtractionError> },
    /// The forward is under way.
    Forwarding,
    /// The request has been answered.
    Finished,
}

/// A phase as contracts see it.
pub enum PhaseView {
    Idle,
    Auditing { target_url: Seq<char>, payload: Result<Seq<char>, ExtractionError> },
    Forwarding,
    Finished,
}

impl View for Phase {
    type V = PhaseView;

    open spec fn view(&self) -> PhaseView {
        match self {
            Phase::Idle => PhaseView::Idle,
            Phase::Auditing { target_url, payload } => PhaseView::Auditing {
                target_url: target_url@,
                payload: match payload {
                    Ok(content) => Ok(content@),
                    Err(e) => Err(*e),
                },
            },
            Phase::Forwarding => PhaseView::Forwarding,
            Phase::Finished => PhaseView::Finished,
        }
    }
}

/// What follows the route match and the audit: the forward of the payload, or
/// the rejection where there is none.
pub open spec fn proceed(target_url: Seq<char>, payload: Result<Seq<char>, ExtractionError>) -> (
    PhaseView,
    ActionView,
) {
    match payload {
        Ok(content) => (PhaseView::Forwarding, ActionView::Forward { target_url, content }),
        Err(e) => (PhaseView::Finished, ActionView::Respond(rejection(e))),
    }
}

/// One step of the dispatcher: the next phase and the action to perform, given
/// the routes, the phase and the event.
///
/// A request that no route answers to is turned away at once. On the first
/// route that matches, the document is recorded first where the route asks for
/// it, whatever the record's fate; then the payload is forwarded, or the request
/// is rejected where it has none. The forward's outcome decides the answer. An
/// event that the phase does not wait for changes nothing.
pub open spec fn transition(routes: Seq<RouteView>, phase: PhaseView, event: EventView) -> (
    PhaseView,
    ActionView,
) {
    match (phase, event) {
        (PhaseView::Idle, EventView::Arrived(request)) => {
            match matched_route(routes, route_key(request.request_path)) {
                None => (PhaseView::Finished, ActionView::Respond(Response::NotFound)),
                Some(route) => {
                    let payload = extraction(payload_member(request.body));
                    if route.logging_enabled {
                        (
                            PhaseView::Auditing { target_url: route.target_url, payload },
                            ActionView::WriteAudit { contents: json_text(request.body) },
                        )
                    } else {
                        proceed(route.target_url, payload)
                    }
                },
            }
        },
        (PhaseView::Auditing { target_url, payload }, EventView::AuditDone(_)) => proceed(
            target_url,
            payload,
        ),
        (PhaseView::Forwarding, EventView::Forwarded(outcome)) => (
            PhaseView::Finished,
            ActionView::Respond(conclusion(outcome)),
        ),
        _ => (phase, ActionView::Ignore),
    }
}

/// What follows the route match and the audit: the forward of `payload` to
/// `target_url`, or the rejection where there is no payload.
pub fn proceed_with(target_url: String, payload: Result<String, ExtractionError>) -> (r: (Phase, Action))
    ensures
        (r.0@, r.1@) == proceed(
            target_url@,
            match payload {
                Ok(content) => Ok(content@),
                Err(e) => Err(e),
            },
        ),
{
    match payload {
        Ok(content) => (
            Phase::Forwarding,
            Action::Forward { target_url, message: OutboundMessage { content } },
        ),
        Err(e) => (Phase::Finished, Action::Respond(Response::from_extraction_error(e))),
    }
}

/// One step of the dispatcher: takes the phase and the event, and returns the
/// next phase with the action that the driver is to perform.
pub fn step(table: &RouteTable, phase: Phase, event: Event) -> (r: (Phase, Action))
    ensures
        (r.0@, r.1@) == transition(table@, phase@, event@),
{
    match (phase, event) {
        (Phase::Idle, Event::Arrived(request)) => {
            match table.lookup(request.request_path.as_str()) {
                None => (Phase::Finished, Action::Respond(Response::NotFound)),
                Some(route) => {
                    let payload = extract(&request.body);
                    let target_url = String::from_str(route.target_url());
                    if route.logging_enabled() {
                        (
                            Phase::Auditing { target_url, payload },
                            Action::WriteAudit { contents: value_text(&request.body) },
                        )
                    } else {
                        proceed_with(target_url, payload)
                    }
                },
            }
        },
        (Phase::Auditing { target_url, payload }, Event::AuditDone(_)) => proceed_with(
            target_url,
            payload,
        ),
        (Phase::Forwarding, Event::Forwarded(outcome)) => (
            Phase::Finished,
            Action::Respond(Response::from_forward(&outcome)),
        ),
        (phase, _) => (phase, Action::Ignore),
    }
}

/// The body of a request as a document, or the response that turns the
/// request away where the body is not JSON.
pub open spec fn decoded(bytes: Seq<u8>) -> Result<serde_json::Value, Response> {
    match parsed_json(bytes) {
        Some(document) => Ok(document),
        None => Err(Response::MalformedBody),
    }
}

/// The JSON document that `bytes` spell, or `MalformedBody` where they spell
/// none.
pub fn decode_body(bytes: &[u8]) -> (r: Result<serde_json::Value, Response>)
    ensures
        r == decoded(bytes@),
{
    match parse_value(bytes) {
        Ok(body) => Ok(body),
        Err(_) => Err(Response::MalformedBody),
    }
}

} // verus!

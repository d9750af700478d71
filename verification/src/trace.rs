//! What the dispatcher does over a whole request: the sequence of its actions,
//! and what holds of every such sequence.

use crate::audit::LogError;
use crate::dispatch::{
    conclusion, rejection, status_of, transition, ActionView, EventView, PhaseView, RequestView,
    Response,
};
use crate::extract::{extraction, payload_member, ExtractionError};
use crate::json::{json_members, json_text};
use crate::route::{
    lemma_configured_path_matches, lemma_matched_route_is_first, matched_route, route_key,
    RouteView,
};
use crate::text::trimmed;
use vstd::prelude::*;

verus! {

/// The actions that the dispatcher answers with when it is in `phase` and is
/// given `events` one after the other, in any order.
pub open spec fn trace(routes: Seq<RouteView>, phase: PhaseView, events: Seq<EventView>) -> Seq<
    ActionView,
>
    decreases events.len(),
{
    if events.len() == 0 {
        Seq::empty()
    } else {
        let (next, action) = transition(routes, phase, events[0]);
        seq![action] + trace(routes, next, events.drop_first())
    }
}

/// The event with which a faithful driver answers `action`: the outcome of the
/// audit write or of the forward. An answer to the request ends the handling.
pub open spec fn report(
    action: ActionView,
    audit_outcome: Result<(), LogError>,
    forward_outcome: Result<u16, Seq<char>>,
) -> Option<EventView> {
    match action {
        ActionView::WriteAudit { .. } => Some(EventView::AuditDone(audit_outcome)),
        ActionView::Forward { .. } => Some(EventView::Forwarded(forward_outcome)),
        _ => None,
    }
}

/// The steps that are left at most before the request is answered.
pub open spec fn steps_left(phase: PhaseView) -> nat {
    match phase {
        PhaseView::Idle => 3,
        PhaseView::Auditing { .. } => 2,
        PhaseView::Forwarding => 1,
        PhaseView::Finished => 0,
    }
}

/// The actions from `phase` on, when the driver reports `event` and then the
/// outcome of each action in turn.
pub open spec fn drive(
    routes: Seq<RouteView>,
    phase: PhaseView,
    event: EventView,
    audit_outcome: Result<(), LogError>,
    forward_outcome: Result<u16, Seq<char>>,
) -> Seq<ActionView>
    decreases steps_left(phase),
{
    let (next, action) = transition(routes, phase, event);
    match report(action, audit_outcome, forward_outcome) {
        Some(reported) => {
            if steps_left(next) < steps_left(phase) {
                seq![action] + drive(routes, next, reported, audit_outcome, forward_outcome)
            } else {
                seq![action]
            }
        },
        None => seq![action],
    }
}

/// The actions taken for `request` from its arrival to its answer, where the
/// audit write ends with `audit_outcome` and the forward with `forward_outcome`,
/// each only if it is made at all.
pub open spec fn run(
    routes: Seq<RouteView>,
    request: RequestView,
    audit_outcome: Result<(), LogError>,
    forward_outcome: Result<u16, Seq<char>>,
) -> Seq<ActionView> {
    drive(routes, PhaseView::Idle, EventView::Arrived(request), audit_outcome, forward_outcome)
}

/// The documents recorded by `actions`, in order.
pub open spec fn audits(actions: Seq<ActionView>) -> Seq<Seq<char>>
    decreases actions.len(),
{
    if actions.len() == 0 {
        Seq::empty()
    } else {
        match actions[0] {
            ActionView::WriteAudit { contents } => seq![contents] + audits(actions.drop_first()),
            _ => audits(actions.drop_first()),
        }
    }
}

/// The forwards made by `actions`, in order: each as its target and its
/// content.
pub open spec fn forwards(actions: Seq<ActionView>) -> Seq<(Seq<char>, Seq<char>)>
    decreases actions.len(),
{
    if actions.len() == 0 {
        Seq::empty()
    } else {
        match actions[0] {
            ActionView::Forward { target_url, content } => seq![(target_url, content)] + forwards(
                actions.drop_first(),
            ),
            _ => forwards(actions.drop_first()),
        }
    }
}

/// The answers given by `actions`, in order.
pub open spec fn responses(actions: Seq<ActionView>) -> Seq<Response>
    decreases actions.len(),
{
    if actions.len() == 0 {
        Seq::empty()
    } else {
        match actions[0] {
            ActionView::Respond(response) => seq![response] + responses(actions.drop_first()),
            _ => responses(actions.drop_first()),
        }
    }
}

/// The three readings of a sequence that begins with `first`.
proof fn lemma_readings_of_cons(first: ActionView, rest: Seq<ActionView>)
    ensures
        audits(seq![first] + rest) == audits(seq![first]) + audits(rest),
        forwards(seq![first] + rest) == forwards(seq![first]) + forwards(rest),
        responses(seq![first] + rest) == responses(seq![first]) + responses(rest),
        audits(seq![first]) == (match first {
            ActionView::WriteAudit { contents } => seq![contents],
            _ => Seq::empty(),
        }),
        forwards(seq![first]) == (match first {
            ActionView::Forward { target_url, content } => seq![(target_url, content)],
            _ => Seq::empty(),
        }),
        responses(seq![first]) == (match first {
            ActionView::Respond(response) => seq![response],
            _ => Seq::empty(),
        }),
{
    let all = seq![first] + rest;
    assert(all.drop_first() =~= rest);
    assert(all[0] == first);
    let one = seq![first];
    assert(one.drop_first() =~= Seq::<ActionView>::empty());
    assert(one[0] == first);
    assert(audits(one.drop_first()) =~= Seq::<Seq<char>>::empty());
    assert(forwards(one.drop_first()) =~= Seq::<(Seq<char>, Seq<char>)>::empty());
    assert(responses(one.drop_first()) =~= Seq::<Response>::empty());
    assert(audits(all) =~= audits(one) + audits(rest));
    assert(forwards(all) =~= forwards(one) + forwards(rest));
    assert(responses(all) =~= responses(one) + responses(rest));
    assert(audits(one) =~= (match first {
        ActionView::WriteAudit { contents } => seq![contents],
        _ => Seq::empty(),
    }));
    assert(forwards(one) =~= (match first {
        ActionView::Forward { target_url, content } => seq![(target_url, content)],
        _ => Seq::empty(),
    }));
    assert(responses(one) =~= (match first {
        ActionView::Respond(response) => seq![response],
        _ => Seq::empty(),
    }));
}

/// Whatever events arrive and in whatever order, from `phase` on the dispatcher
/// asks for no more than is left to do: at most one audit record and that only
/// before anything else, at most one forward and that only before the answer,
/// and at most one answer.
pub proof fn lemma_trace_bounds(routes: Seq<RouteView>, phase: PhaseView, events: Seq<EventView>)
    ensures
        audits(trace(routes, phase, events)).len() <= (if phase is Idle {
            1nat
        } else {
            0nat
        }),
        forwards(trace(routes, phase, events)).len() <= (if phase is Idle || phase is Auditing {
            1nat
        } else {
            0nat
        }),
        responses(trace(routes, phase, events)).len() <= (if phase is Finished {
            0nat
        } else {
            1nat
        }),
    decreases events.len(),
{
    if events.len() > 0 {
        let (next, action) = transition(routes, phase, events[0]);
        let rest = trace(routes, next, events.drop_first());
        lemma_trace_bounds(routes, next, events.drop_first());
        lemma_readings_of_cons(action, rest);
    }
}

/// No retries: over any sequence of events a request is recorded at most once,
/// forwarded at most once and answered at most once.
pub proof fn lemma_at_most_once(routes: Seq<RouteView>, events: Seq<EventView>)
    ensures
        audits(trace(routes, PhaseView::Idle, events)).len() <= 1,
        forwards(trace(routes, PhaseView::Idle, events)).len() <= 1,
        responses(trace(routes, PhaseView::Idle, events)).len() <= 1,
{
    lemma_trace_bounds(routes, PhaseView::Idle, events);
}

/// What is done for a request once its route is known and, where the route asks
/// for it, the audit write has ended: the forward and the answer that its
/// outcome gives, or the rejection where there is no payload.
pub open spec fn relay_course(
    target_url: Seq<char>,
    payload: Result<Seq<char>, ExtractionError>,
    forward_outcome: Result<u16, Seq<char>>,
) -> Seq<ActionView> {
    match payload {
        Ok(content) => seq![
            ActionView::Forward { target_url, content },
            ActionView::Respond(conclusion(forward_outcome)),
        ],
        Err(e) => seq![ActionView::Respond(rejection(e))],
    }
}

/// The course of a request, written out: not found where no route matches;
/// else the audit record where the first matching route asks for one, then the
/// forward and its answer, or the rejection.
pub open spec fn course(
    routes: Seq<RouteView>,
    request: RequestView,
    forward_outcome: Result<u16, Seq<char>>,
) -> Seq<ActionView> {
    match matched_route(routes, route_key(request.request_path)) {
        None => seq![ActionView::Respond(Response::NotFound)],
        Some(route) => {
            let rest = relay_course(
                route.target_url,
                extraction(payload_member(request.body)),
                forward_outcome,
            );
            if route.logging_enabled {
                seq![ActionView::WriteAudit { contents: json_text(request.body) }] + rest
            } else {
                rest
            }
        },
    }
}

/// A faithful run takes the course written out above, whatever becomes of the
/// audit write: a record that could not be written holds nothing up.
pub proof fn lemma_run_takes_course(
    routes: Seq<RouteView>,
    request: RequestView,
    audit_outcome: Result<(), LogError>,
    forward_outcome: Result<u16, Seq<char>>,
)
    ensures
        run(routes, request, audit_outcome, forward_outcome) == course(
            routes,
            request,
            forward_outcome,
        ),
{
    reveal_with_fuel(drive, 4);
    assert(run(routes, request, audit_outcome, forward_outcome) =~= course(
        routes,
        request,
        forward_outcome,
    ));
}

/// The readings of what follows the route match.
proof fn lemma_readings_of_relay_course(
    target_url: Seq<char>,
    payload: Result<Seq<char>, ExtractionError>,
    forward_outcome: Result<u16, Seq<char>>,
)
    ensures
        audits(relay_course(target_url, payload, forward_outcome)) == Seq::<Seq<char>>::empty(),
        forwards(relay_course(target_url, payload, forward_outcome)) == (match payload {
            Ok(content) => seq![(target_url, content)],
            Err(_) => Seq::empty(),
        }),
        responses(relay_course(target_url, payload, forward_outcome)) == (match payload {
            Ok(_) => seq![conclusion(forward_outcome)],
            Err(e) => seq![rejection(e)],
        }),
{
    match payload {
        Ok(content) => {
            let first = ActionView::Forward { target_url, content };
            let second = ActionView::Respond(conclusion(forward_outcome));
            assert(relay_course(target_url, payload, forward_outcome) =~= seq![first] + seq![second]);
            lemma_readings_of_cons(first, seq![second]);
            lemma_readings_of_cons(second, Seq::empty());
        },
        Err(e) => {
            lemma_readings_of_cons(ActionView::Respond(rejection(e)), Seq::empty());
        },
    }
}

/// The readings of a whole run: what is recorded, what is forwarded and what is
/// answered, for every request and every outcome of the audit write and of the
/// forward.
pub proof fn lemma_readings_of_run(
    routes: Seq<RouteView>,
    request: RequestView,
    audit_outcome: Result<(), LogError>,
    forward_outcome: Result<u16, Seq<char>>,
)
    ensures
        audits(run(routes, request, audit_outcome, forward_outcome)) == (match matched_route(
            routes,
            route_key(request.request_path),
        ) {
            Some(route) if route.logging_enabled => seq![json_text(request.body)],
            _ => Seq::empty(),
        }),
        forwards(run(routes, request, audit_outcome, forward_outcome)) == (match (
            matched_route(routes, route_key(request.request_path)),
            extraction(payload_member(request.body)),
        ) {
            (Some(route), Ok(content)) => seq![(route.target_url, content)],
            _ => Seq::empty(),
        }),
        responses(run(routes, request, audit_outcome, forward_outcome)) == seq![
            match (
                matched_route(routes, route_key(request.request_path)),
                extraction(payload_member(request.body)),
            ) {
                (None, _) => Response::NotFound,
                (Some(_), Err(e)) => rejection(e),
                (Some(_), Ok(_)) => conclusion(forward_outcome),
            },
        ],
{
    lemma_run_takes_course(routes, request, audit_outcome, forward_outcome);
    match matched_route(routes, route_key(request.request_path)) {
        None => {
            lemma_readings_of_cons(ActionView::Respond(Response::NotFound), Seq::empty());
        },
        Some(route) => {
            let payload = extraction(payload_member(request.body));
            let rest = relay_course(route.target_url, payload, forward_outcome);
            lemma_readings_of_relay_course(route.target_url, payload, forward_outcome);
            if route.logging_enabled {
                lemma_readings_of_cons(
                    ActionView::WriteAudit { contents: json_text(request.body) },
                    rest,
                );
            }
        },
    }
}

/// A payload reaches the forwarder trimmed: where the request is made to the
/// path of a configured route and its body has a member `data`, exactly one
/// forward is made, to the target of the first route with that path, and its
/// content is the compact text of `data` without the white space around it.
pub proof fn lemma_payload_reaches_forwarder(
    routes: Seq<RouteView>,
    index: int,
    request: RequestView,
    audit_outcome: Result<(), LogError>,
    forward_outcome: Result<u16, Seq<char>>,
)
    requires
        0 <= index < routes.len(),
        routes[index].path == route_key(request.request_path),
        json_members(request.body).dom().contains("data"@),
    ensures
        matched_route(routes, route_key(request.request_path)) matches Some(route) && forwards(
            run(routes, request, audit_outcome, forward_outcome),
        ) == seq![(route.target_url, trimmed(json_members(request.body)["data"@]))],
{
    lemma_configured_path_matches(routes, index, route_key(request.request_path));
    lemma_readings_of_run(routes, request, audit_outcome, forward_outcome);
}

/// A request to a path that no route has is answered with status 404, and
/// nothing else is done for it: no forward, no audit record.
pub proof fn lemma_unmatched_is_not_found(
    routes: Seq<RouteView>,
    request: RequestView,
    audit_outcome: Result<(), LogError>,
    forward_outcome: Result<u16, Seq<char>>,
)
    requires
        forall|j: int|
            0 <= j < routes.len() ==> (#[trigger] routes[j]).path != route_key(
                request.request_path,
            ),
    ensures
        run(routes, request, audit_outcome, forward_outcome) == seq![
            ActionView::Respond(Response::NotFound),
        ],
        status_of(Response::NotFound) == 404,
        forwards(run(routes, request, audit_outcome, forward_outcome)).len() == 0,
        audits(run(routes, request, audit_outcome, forward_outcome)).len() == 0,
{
    lemma_matched_route_is_first(routes, route_key(request.request_path));
    lemma_run_takes_course(routes, request, audit_outcome, forward_outcome);
    lemma_readings_of_run(routes, request, audit_outcome, forward_outcome);
}

/// The audit follows the route's setting: on a matched route that asks for
/// logging exactly one record is written, and it holds the compact text of the
/// inbound body; on one that does not, none is written.
pub proof fn lemma_audit_follows_setting(
    routes: Seq<RouteView>,
    request: RequestView,
    audit_outcome: Result<(), LogError>,
    forward_outcome: Result<u16, Seq<char>>,
)
    requires
        matched_route(routes, route_key(request.request_path)) is Some,
    ensures
        audits(run(routes, request, audit_outcome, forward_outcome)) == (if matched_route(
            routes,
            route_key(request.request_path),
        )->0.logging_enabled {
            seq![json_text(request.body)]
        } else {
            Seq::empty()
        }),
{
    lemma_readings_of_run(routes, request, audit_outcome, forward_outcome);
}

/// A forward that the target answers ends with the target's status, unchanged.
pub proof fn lemma_downstream_status_is_passed_on(
    routes: Seq<RouteView>,
    request: RequestView,
    audit_outcome: Result<(), LogError>,
    code: u16,
)
    requires
        matched_route(routes, route_key(request.request_path)) is Some,
        extraction(payload_member(request.body)) is Ok,
    ensures
        responses(run(routes, request, audit_outcome, Ok(code))) == seq![
            Response::Downstream(code),
        ],
        status_of(Response::Downstream(code)) == code,
{
    lemma_readings_of_run(routes, request, audit_outcome, Ok(code));
}

/// A forward that the transport gives up ends with status 502, a server
/// error that is no answer of the target, after one attempt; and what is
/// recorded is what any other outcome of the forward would have left recorded.
pub proof fn lemma_transport_failure_is_server_error(
    routes: Seq<RouteView>,
    request: RequestView,
    audit_outcome: Result<(), LogError>,
    cause: Seq<char>,
    other_outcome: Result<u16, Seq<char>>,
)
    requires
        matched_route(routes, route_key(request.request_path)) is Some,
        extraction(payload_member(request.body)) is Ok,
    ensures
        responses(run(routes, request, audit_outcome, Err(cause))) == seq![Response::ForwardFailed],
        status_of(Response::ForwardFailed) == 502,
        forall|code: u16| Response::ForwardFailed != Response::Downstream(code),
        forwards(run(routes, request, audit_outcome, Err(cause))).len() == 1,
        audits(run(routes, request, audit_outcome, Err(cause))) == audits(
            run(routes, request, audit_outcome, other_outcome),
        ),
{
    lemma_readings_of_run(routes, request, audit_outcome, Err(cause));
    lemma_readings_of_run(routes, request, audit_outcome, other_outcome);
}

} // verus!

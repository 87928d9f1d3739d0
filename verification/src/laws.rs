//! What the users of a service can rely on.
use crate::protocol::{execution, lemma_next_phase, next, Event, Phase, System};
use crate::service::{RequestCall, ServedRequest};
use crate::state::{step, woken, Move, RequestDroppedError, SlotAnswer, State};
use crate::sync::{me, same_task, told_apart, Journal, StateCell};
use core::task::Waker;
use vstd::prelude::*;

verus! {

// ---- One move ----

/// No move leaves a waker beside the thing that it is registered for.
pub proof fn law_no_waker_gets_overdue<Req, Resp>(
    pre: State<Req, Resp>,
    made: Move<Req, Resp>,
    post: State<Req, Resp>,
)
    requires
        pre.no_waker_overdue(),
        step(pre, made, post),
    ensures
        post.no_waker_overdue(),
{
}

/// A move that brings about what a task waits for wakes the task that is registered for it: when
/// the slot gets free, when a request is queued, and when a response is queued.
pub proof fn law_registered_task_is_woken<Req, Resp>(
    pre: State<Req, Resp>,
    made: Move<Req, Resp>,
    post: State<Req, Resp>,
)
    requires
        step(pre, made, post),
    ensures
        pre.client_busy && !post.client_busy ==> woken(pre, made) == pre.waiting_client_slot_waker,
        pre.queued_request is None && post.queued_request is Some ==> woken(pre, made)
            == pre.waiting_server_waker,
        pre.queued_response is None && post.queued_response is Some ==> woken(pre, made)
            == pre.waiting_client_response_waker,
{
}

/// The waker of a client that waits for the slot stays registered until it is woken, or until the
/// same task leaves another one in its place.
pub proof fn law_waiting_client_is_not_forgotten<Req, Resp>(
    pre: State<Req, Resp>,
    made: Move<Req, Resp>,
    post: State<Req, Resp>,
    registered: Waker,
)
    requires
        step(pre, made, post),
        pre.waiting_client_slot_waker == Some(registered),
    ensures
        ({
            ||| post.waiting_client_slot_waker == Some(registered)
            ||| woken(pre, made) == Some(registered)
            ||| made matches Move::PollSlot { waker, .. } && post.waiting_client_slot_waker == Some(
                waker,
            ) && same_task(registered, waker)
        }),
{
}

/// Whom a client wakes by asking for the slot was registered for it, with a waker that was told
/// apart from the client's own.
pub proof fn law_asking_client_wakes_only_another<Req, Resp>(
    pre: State<Req, Resp>,
    waker: Waker,
    answer: SlotAnswer,
    post: State<Req, Resp>,
    other: Waker,
)
    requires
        step(pre, (Move::PollSlot { waker, answer }), post),
        woken(pre, (Move::<Req, Resp>::PollSlot { waker, answer })) == Some(other),
    ensures
        pre.waiting_client_slot_waker == Some(other),
        told_apart(other, waker),
{
}

/// A waker that is registered for a response or for a request stays there until it is woken, or
/// until the next task that asks for the same takes its place.
pub proof fn law_waker_stays_until_woken_or_replaced<Req, Resp>(
    pre: State<Req, Resp>,
    made: Move<Req, Resp>,
    post: State<Req, Resp>,
)
    requires
        step(pre, made, post),
    ensures
        ({
            ||| post.waiting_client_response_waker == pre.waiting_client_response_waker
            ||| woken(pre, made) == pre.waiting_client_response_waker
            ||| made matches Move::PollResponse { waker, .. } && post.waiting_client_response_waker
                == Some(waker)
        }),
        ({
            ||| post.waiting_server_waker == pre.waiting_server_waker
            ||| woken(pre, made) == pre.waiting_server_waker
            ||| made matches Move::PollRequest { waker, .. } && post.waiting_server_waker == Some(
                waker,
            )
        }),
{
}

/// A call makes the round: from a state in which the slot is free and nothing is queued, the
/// request that the client submits is the one that the server takes, the result with which the
/// server completes it is the one that the client gets, and the slot is free again.
pub proof fn law_round_trip<Req, Resp>(
    idle: State<Req, Resp>,
    slot_waker: Waker,
    answer: SlotAnswer,
    claimed: State<Req, Resp>,
    request: Req,
    queued: State<Req, Resp>,
    server_waker: Waker,
    taken: Option<Req>,
    serving: State<Req, Resp>,
    result: Result<Resp, RequestDroppedError>,
    answered: State<Req, Resp>,
    response_waker: Waker,
    response: Option<Result<Resp, RequestDroppedError>>,
    finished: State<Req, Resp>,
)
    requires
        !idle.client_busy,
        !idle.client_abandoned,
        idle.queued_request is None,
        idle.queued_response is None,
        step(idle, (Move::PollSlot { waker: slot_waker, answer }), claimed),
        step(claimed, (Move::Submit { request }), queued),
        step(queued, (Move::PollRequest { waker: server_waker, taken }), serving),
        step(serving, (Move::Complete { result }), answered),
        step(answered, (Move::PollResponse { waker: response_waker, response }), finished),
    ensures
        answer is Acquired,
        taken == Some(request),
        response == Some(result),
        finished == (State {
            waiting_client_slot_waker: None,
            waiting_client_response_waker: None,
            waiting_server_waker: None,
            ..idle
        }),
{
}

// ---- Every execution ----

/// A new service fits together.
pub proof fn law_new_service_is_coherent<Req, Resp>()
    ensures
        System::starting(State::<Req, Resp>::empty()).coherent(),
{
    assert(System::starting(State::<Req, Resp>::empty()).in_phase(Phase::Idle));
}

/// Whatever a user does, the service and its users still fit together.
pub proof fn law_event_keeps_coherence<Req, Resp>(
    pre: System<Req, Resp>,
    event: Event<Req, Resp>,
    post: System<Req, Resp>,
)
    requires
        pre.coherent(),
        next(pre, event, post),
    ensures
        post.coherent(),
{
    let phase = choose|phase: Phase| pre.in_phase(phase);
    lemma_next_phase(pre, phase, event, post);
}

/// Whatever the users of a new service do, and in whatever order, the service and its users fit
/// together at every moment.
pub proof fn law_execution_is_coherent<Req, Resp>(
    trace: Seq<System<Req, Resp>>,
    events: Seq<Event<Req, Resp>>,
    i: int,
)
    requires
        execution(State::empty(), trace, events),
        0 <= i < trace.len(),
    ensures
        trace[i].coherent(),
    decreases i,
{
    if i == 0 {
        law_new_service_is_coherent::<Req, Resp>();
    } else {
        law_execution_is_coherent(trace, events, i - 1);
        law_event_keeps_coherence(trace[i - 1], events[i - 1], trace[i]);
    }
}

/// In whatever state a new service is found, there is one call at most in it: a request and a
/// response are not queued together, and each is queued only while a client has the slot and is
/// still there. No waker stands beside the thing that it is registered for.
pub proof fn law_state_of_a_service<M, Req, Resp>(
    cell: StateCell<M, Req, Resp>,
    state: State<Req, Resp>,
)
    requires
        cell.initial() == State::<Req, Resp>::empty(),
        cell.may_hold(state),
    ensures
        state.queued_request is None || state.queued_response is None,
        state.queued_request is Some || state.queued_response is Some ==> state.client_busy
            && !state.client_abandoned,
        state.client_abandoned ==> state.client_busy,
        state.no_waker_overdue(),
{
    let (trace, events) = choose|trace: Seq<System<Req, Resp>>, events: Seq<Event<Req, Resp>>|
        #[trigger] execution(cell.initial(), trace, events) && trace.last().state == state;
    law_execution_is_coherent(trace, events, trace.len() - 1);
}

/// The waker that stands for a client at `j` that left `waker` behind for the slot at `i`: the one
/// that its task left last, as long as it asks again before it is woken.
pub open spec fn slot_waker_of<Req, Resp>(
    trace: Seq<System<Req, Resp>>,
    events: Seq<Event<Req, Resp>>,
    i: int,
    waker: Waker,
    j: int,
) -> Waker
    decreases j,
{
    if j <= i + 1 || j <= 0 {
        waker
    } else {
        let before = slot_waker_of(trace, events, i, waker, j - 1);
        match events[j - 1].made {
            Move::PollSlot { waker: renewed, answer: SlotAnswer::Renewed } if trace[j
                - 1].state.waiting_client_slot_waker == Some(before) => renewed,
            _ => before,
        }
    }
}

/// A client that left `waker` behind for the slot at `i` was woken before `j`, by the waker that
/// stood for it then.
pub open spec fn woken_between<Req, Resp>(
    trace: Seq<System<Req, Resp>>,
    events: Seq<Event<Req, Resp>>,
    i: int,
    waker: Waker,
    j: int,
) -> bool {
    exists|k: int|
        i < k < j && woken(trace[k].state, (#[trigger] events[k]).made) == Some(
            slot_waker_of(trace, events, i, waker, k),
        )
}

/// A client that was refused the slot is registered for it, or was woken since. When the slot is
/// free, it was woken since. This holds however many clients wait. Where its task has left another
/// waker in place of the first, the other one stands for it.
pub proof fn law_refused_client_is_registered_or_woken<Req, Resp>(
    trace: Seq<System<Req, Resp>>,
    events: Seq<Event<Req, Resp>>,
    i: int,
    waker: Waker,
    answer: SlotAnswer,
    j: int,
)
    requires
        execution(State::empty(), trace, events),
        0 <= i < j < trace.len(),
        events[i].made == (Move::<Req, Resp>::PollSlot { waker, answer }),
        answer !is Acquired,
    ensures
        slot_waker_of(trace, events, i, waker, i + 1) == waker,
        ({
            let before = slot_waker_of(trace, events, i, waker, j - 1);
            let now = slot_waker_of(trace, events, i, waker, j);
            now == before || same_task(before, now)
        }),
        ({
            ||| trace[j].state.waiting_client_slot_waker == Some(
                slot_waker_of(trace, events, i, waker, j),
            )
            ||| woken_between(trace, events, i, waker, j)
        }),
        !trace[j].state.client_busy ==> woken_between(trace, events, i, waker, j),
    decreases j,
{
    law_execution_is_coherent(trace, events, j);
    if j > i + 1 {
        law_refused_client_is_registered_or_woken(trace, events, i, waker, answer, j - 1);
        let before = slot_waker_of(trace, events, i, waker, j - 1);
        if trace[j - 1].state.waiting_client_slot_waker == Some(before) {
            law_waiting_client_is_not_forgotten(
                trace[j - 1].state,
                events[j - 1].made,
                trace[j].state,
                before,
            );
        }
    }
}

/// A client that was told to wait for its response is registered for it, or was woken since, as
/// long as it makes no other move. When its response is queued, it was woken since.
pub proof fn law_client_in_flight_is_registered_or_woken<Req, Resp>(
    trace: Seq<System<Req, Resp>>,
    events: Seq<Event<Req, Resp>>,
    i: int,
    waker: Waker,
    j: int,
)
    requires
        execution(State::empty(), trace, events),
        0 <= i < j < trace.len(),
        events[i].made == (Move::<Req, Resp>::PollResponse { waker, response: None }),
        forall|k: int| i < k < j ==> (#[trigger] events[k]).by != events[i].by,
    ensures
        trace[j].is_in_flight(events[i].by),
        trace[j].state.waiting_client_response_waker == Some(waker) || exists|k: int|
            i < k < j && woken(trace[k].state, (#[trigger] events[k]).made) == Some(waker),
        trace[j].state.queued_response is Some ==> exists|k: int|
            i < k < j && woken(trace[k].state, (#[trigger] events[k]).made) == Some(waker),
    decreases j,
{
    law_execution_is_coherent(trace, events, j - 1);
    law_execution_is_coherent(trace, events, j);
    if j > i + 1 {
        law_client_in_flight_is_registered_or_woken(trace, events, i, waker, j - 1);
        assert(trace[j - 1].has_slot(events[i].by));
        assert(!trace[j - 1].has_slot(events[j - 1].by));
    }
}

/// A server that was told to wait for a request is registered for it, or was woken since, as long
/// as no server asks again. When a request is queued, it was woken since.
pub proof fn law_waiting_server_is_registered_or_woken<Req, Resp>(
    trace: Seq<System<Req, Resp>>,
    events: Seq<Event<Req, Resp>>,
    i: int,
    waker: Waker,
    j: int,
)
    requires
        execution(State::empty(), trace, events),
        0 <= i < j < trace.len(),
        events[i].made == (Move::<Req, Resp>::PollRequest { waker, taken: None }),
        forall|k: int| i < k < j ==> (#[trigger] events[k]).made !is PollRequest,
    ensures
        trace[j].state.waiting_server_waker == Some(waker) || exists|k: int|
            i < k < j && woken(trace[k].state, (#[trigger] events[k]).made) == Some(waker),
        trace[j].state.queued_request is Some ==> exists|k: int|
            i < k < j && woken(trace[k].state, (#[trigger] events[k]).made) == Some(waker),
    decreases j,
{
    law_execution_is_coherent(trace, events, j);
    assert(next(trace[j - 1], events[j - 1], trace[j]));
    if j > i + 1 {
        law_waiting_server_is_registered_or_woken(trace, events, i, waker, j - 1);
    }
}

/// There is one call at a time: at most one client has the slot, at most one server has a
/// request, and a request and a response are never queued together.
pub proof fn law_one_call_at_a_time<Req, Resp>(system: System<Req, Resp>)
    requires
        system.coherent(),
    ensures
        forall|a: int, b: int| #[trigger]
            system.has_slot(a) && #[trigger] system.has_slot(b) ==> a == b,
        forall|h: int, k: int| #[trigger]
            system.handles.contains_key(h) && #[trigger] system.handles.contains_key(k) ==> h == k,
        system.state.queued_request is None || system.state.queued_response is None,
{
}

/// The slot is given to a client only when the call before is finished: no client has the slot,
/// no server has a request, and nothing is queued. A client that is refused waits for a client
/// that has the slot, or for a server that has the request of one that has gone away.
pub proof fn law_slot_is_given_between_calls<Req, Resp>(
    pre: System<Req, Resp>,
    call: int,
    waker: Waker,
    answer: SlotAnswer,
    post: System<Req, Resp>,
)
    requires
        pre.coherent(),
        next(pre, (Event { by: call, made: Move::PollSlot { waker, answer } }), post),
    ensures
        answer is Acquired ==> {
            &&& forall|other: int| !#[trigger] pre.has_slot(other)
            &&& pre.handles == Map::<int, int>::empty()
            &&& pre.state.queued_request is None
            &&& pre.state.queued_response is None
            &&& post.is_holding(call)
        },
        answer !is Acquired ==> (exists|other: int| #[trigger] pre.has_slot(other)) || (
        pre.state.client_abandoned && exists|server: int| #[trigger]
            pre.handles.contains_key(server)),
{
    let phase = choose|phase: Phase| pre.in_phase(phase);
    match phase {
        Phase::Idle => {},
        Phase::Claimed { call } => assert(pre.has_slot(call)),
        Phase::Queued { call } => assert(pre.has_slot(call)),
        Phase::Serving { call, .. } => assert(pre.has_slot(call)),
        Phase::Answered { call } => assert(pre.has_slot(call)),
        Phase::Abandoned { server, .. } => assert(pre.handles.contains_key(server)),
    }
}

/// The move `made` gives the slot back in `pre`: a result is delivered, a client goes away while
/// something of its call is queued, or a server completes the call of one that has gone away.
pub open spec fn releases<Req, Resp>(pre: State<Req, Resp>, made: Move<Req, Resp>) -> bool {
    match made {
        Move::PollResponse { response, .. } => response is Some,
        Move::Cancel => pre.queued_request is Some || pre.queued_response is Some,
        Move::Complete { .. } => pre.client_abandoned,
        _ => false,
    }
}

/// The slot has one holder: after a client got it, everyone is refused until it is given back.
pub proof fn law_slot_is_refused_until_released<Req, Resp>(
    start: State<Req, Resp>,
    trace: Seq<System<Req, Resp>>,
    events: Seq<Event<Req, Resp>>,
    i: int,
    waker: Waker,
    j: int,
)
    requires
        execution(start, trace, events),
        0 <= i < j < trace.len(),
        events[i].made == (Move::<Req, Resp>::PollSlot { waker, answer: SlotAnswer::Acquired }),
        forall|k: int|
            i < k < j ==> !releases(trace[k].state, (#[trigger] events[k]).made),
    ensures
        trace[j].state.client_busy,
        j < events.len() ==> (events[j].made matches Move::PollSlot { answer, .. }
            ==> answer !is Acquired),
    decreases j,
{
    if j > i + 1 {
        law_slot_is_refused_until_released(start, trace, events, i, waker, j - 1);
    }
}

/// A server gets a request exactly when one is queued, and it is the request of the call that has
/// the slot. It is to complete that call, and no other server has a request.
pub proof fn law_server_gets_the_request<Req, Resp>(
    pre: System<Req, Resp>,
    server: int,
    waker: Waker,
    taken: Option<Req>,
    post: System<Req, Resp>,
)
    requires
        pre.coherent(),
        next(pre, (Event { by: server, made: Move::PollRequest { waker, taken } }), post),
    ensures
        taken is Some <==> pre.state.queued_request is Some,
        taken matches Some(request) ==> {
            let call = post.handles[server];
            &&& pre.is_in_flight(call)
            &&& pre.request_of(call) == request
            &&& post.handles == Map::<int, int>::empty().insert(server, call)
        },
{
}

/// The requests that were submitted and not cancelled before a server took them, in the order in
/// which they were submitted, each with its call.
pub open spec fn standing<Req, Resp>(events: Seq<Event<Req, Resp>>) -> Seq<(int, Req)>
    decreases events.len(),
{
    if events.len() == 0 {
        Seq::empty()
    } else {
        let by = events.last().by;
        let before = standing(events.drop_last());
        match events.last().made {
            Move::Submit { request } => before.push((by, request)),
            // The last request is the only one that no server may have taken yet.
            Move::Cancel => if before.len() > taken(events.drop_last()).len() && before.last().0
                == by {
                before.drop_last()
            } else {
                before
            },
            _ => before,
        }
    }
}

/// The requests that servers got, in the order in which they got them.
pub open spec fn taken<Req, Resp>(events: Seq<Event<Req, Resp>>) -> Seq<Req>
    decreases events.len(),
{
    if events.len() == 0 {
        Seq::empty()
    } else {
        match events.last().made {
            Move::PollRequest { taken: Some(request), .. } => taken(events.drop_last()).push(
                request,
            ),
            _ => taken(events.drop_last()),
        }
    }
}

/// The requests that servers get are those that were submitted and not cancelled before, in the
/// order in which they were submitted: none is lost, none comes twice, and none is altered. At
/// most the last one is still queued.
pub proof fn law_requests_are_served_in_order<Req, Resp>(
    trace: Seq<System<Req, Resp>>,
    events: Seq<Event<Req, Resp>>,
)
    requires
        execution(State::empty(), trace, events),
    ensures
        ({
            let submitted = standing(events).map_values(|entry: (int, Req)| entry.1);
            match trace.last().state.queued_request {
                Some(request) => submitted == taken(events).push(request),
                None => submitted == taken(events),
            }
        }),
{
    lemma_served_in_order(trace, events, events.len() as int);
    assert(events.take(events.len() as int) =~= events);
    let submitted = standing(events).map_values(|entry: (int, Req)| entry.1);
    match trace.last().state.queued_request {
        Some(request) => assert(submitted =~= taken(events).push(request)),
        None => assert(submitted =~= taken(events)),
    }
}

proof fn lemma_served_in_order<Req, Resp>(
    trace: Seq<System<Req, Resp>>,
    events: Seq<Event<Req, Resp>>,
    n: int,
)
    requires
        execution(State::empty(), trace, events),
        0 <= n <= events.len(),
    ensures
        ({
            let submitted = standing(events.take(n));
            let got = taken(events.take(n));
            &&& forall|i: int| 0 <= i < got.len() ==> (#[trigger] submitted[i]).1 == got[i]
            &&& match trace[n].state.queued_request {
                Some(request) => {
                    &&& submitted.len() == got.len() + 1
                    &&& trace[n].submitted_by == Some(submitted.last().0)
                    &&& submitted.last().1 == request
                },
                None => submitted.len() == got.len(),
            }
        }),
    decreases n,
{
    if n > 0 {
        lemma_served_in_order(trace, events, n - 1);
        law_execution_is_coherent(trace, events, n - 1);
        assert(events.take(n).drop_last() =~= events.take(n - 1));
        let event = events[n - 1];
        if event.made is Submit || event.made is Cancel {
            assert(trace[n - 1].has_slot(event.by));
        }
    }
}

/// What a client gets is what the server completed its call with: the response of a server that
/// responded, and [`RequestDroppedError`] of one that did not. Then the slot is free.
pub proof fn law_client_gets_its_result<Req, Resp>(
    pre: System<Req, Resp>,
    call: int,
    waker: Waker,
    response: Option<Result<Resp, RequestDroppedError>>,
    post: System<Req, Resp>,
)
    requires
        pre.coherent(),
        next(pre, (Event { by: call, made: Move::PollResponse { waker, response } }), post),
    ensures
        response is Some <==> pre.results.contains_key(call),
        response matches Some(result) ==> result == pre.results[call],
        response is Some ==> post.in_phase(Phase::Idle),
{
    let phase = choose|phase: Phase| pre.in_phase(phase);
    assert(pre.has_slot(call));
    lemma_next_phase(
        pre,
        phase,
        (Event { by: call, made: Move::PollResponse { waker, response } }),
        post,
    );
}

/// A queued request stays queued, whatever else happens, until a server takes it or its client
/// goes away.
pub proof fn law_request_waits_for_the_server<Req, Resp>(
    pre: System<Req, Resp>,
    call: int,
    event: Event<Req, Resp>,
    post: System<Req, Resp>,
)
    requires
        pre.in_phase(Phase::Queued { call }),
        next(pre, event, post),
    ensures
        event.made is PollRequest ==> post.in_phase(Phase::Serving { call, server: event.by }),
        event.made is Cancel ==> event.by == call && post.in_phase(Phase::Idle),
        event.made !is PollRequest && event.made !is Cancel ==> post.in_phase(
            Phase::Queued { call },
        ),
{
    lemma_next_phase(pre, Phase::Queued { call }, event, post);
    assert(pre.has_slot(event.by) ==> event.by == call);
}

/// The result of a server reaches a client that has not gone away: it is queued, and the client
/// is woken.
pub proof fn law_result_reaches_the_client<Req, Resp>(
    pre: System<Req, Resp>,
    server: int,
    result: Result<Resp, RequestDroppedError>,
    post: System<Req, Resp>,
)
    requires
        pre.coherent(),
        next(pre, (Event { by: server, made: Move::Complete { result } }), post),
        pre.is_in_flight(pre.handles[server]),
    ensures
        post.in_phase(Phase::Answered { call: pre.handles[server] }),
        post.results[pre.handles[server]] == result,
        post.state.queued_response == Some(result),
        woken(pre.state, (Move::Complete { result })) == pre.state.waiting_client_response_waker,
{
    let phase = choose|phase: Phase| pre.in_phase(phase);
    lemma_next_phase(pre, phase, (Event { by: server, made: Move::Complete { result } }), post);
}

/// A queued response stays queued, whatever else happens, until its client takes it or goes away.
pub proof fn law_response_waits_for_the_client<Req, Resp>(
    pre: System<Req, Resp>,
    call: int,
    event: Event<Req, Resp>,
    post: System<Req, Resp>,
)
    requires
        pre.in_phase(Phase::Answered { call }),
        next(pre, event, post),
    ensures
        event.made matches Move::PollResponse { response, .. } ==> event.by == call && response
            == Some(pre.results[call]) && post.in_phase(Phase::Idle),
        event.made is Cancel ==> event.by == call && post.in_phase(Phase::Idle),
        event.made !is PollResponse && event.made !is Cancel ==> post.in_phase(
            Phase::Answered { call },
        ) && post.results[call] == pre.results[call],
{
    lemma_next_phase(pre, Phase::Answered { call }, event, post);
    assert(pre.has_slot(event.by) ==> event.by == call);
}

/// A call is completed at most once, and its result does not change afterwards.
pub proof fn law_result_is_final<Req, Resp>(
    pre: System<Req, Resp>,
    event: Event<Req, Resp>,
    post: System<Req, Resp>,
    call: int,
)
    requires
        pre.coherent(),
        next(pre, event, post),
        pre.results.contains_key(call),
    ensures
        post.results.contains_key(call),
        post.results[call] == pre.results[call],
        forall|server: int| #[trigger]
            pre.handles.contains_key(server) ==> pre.handles[server] != call,
{
}

// ---- Clients that go away ----

/// A client that goes away before a server has taken its request takes the request with it. The
/// slot is free at once, and the client that waits for it is woken.
pub proof fn law_cancel_before_the_server<Req, Resp>(
    pre: System<Req, Resp>,
    call: int,
    post: System<Req, Resp>,
)
    requires
        pre.coherent(),
        next(pre, (Event { by: call, made: Move::Cancel }), post),
        pre.state.queued_request is Some,
    ensures
        post.in_phase(Phase::Idle),
        woken(pre.state, Move::Cancel) == pre.state.waiting_client_slot_waker,
{
    let phase = choose|phase: Phase| pre.in_phase(phase);
    lemma_next_phase(pre, phase, (Event { by: call, made: Move::Cancel }), post);
}

/// A client that goes away after the server has answered takes the response with it. The slot is
/// free at once, and the client that waits for it is woken.
pub proof fn law_cancel_after_the_answer<Req, Resp>(
    pre: System<Req, Resp>,
    call: int,
    post: System<Req, Resp>,
)
    requires
        pre.coherent(),
        next(pre, (Event { by: call, made: Move::Cancel }), post),
        pre.results.contains_key(call),
    ensures
        post.in_phase(Phase::Idle),
        woken(pre.state, Move::Cancel) == pre.state.waiting_client_slot_waker,
{
    let phase = choose|phase: Phase| pre.in_phase(phase);
    lemma_next_phase(pre, phase, (Event { by: call, made: Move::Cancel }), post);
}

/// A client that goes away while a server has its request leaves the slot taken, and the server
/// goes on.
pub proof fn law_cancel_while_served<Req, Resp>(
    pre: System<Req, Resp>,
    call: int,
    server: int,
    post: System<Req, Resp>,
)
    requires
        pre.coherent(),
        next(pre, (Event { by: call, made: Move::Cancel }), post),
        pre.handles.contains_key(server),
    ensures
        post.in_phase(Phase::Abandoned { call, server }),
{
    let phase = choose|phase: Phase| pre.in_phase(phase);
    lemma_next_phase(pre, phase, (Event { by: call, made: Move::Cancel }), post);
}

/// While a server has the request of a client that has gone away, the slot stays taken, whatever
/// else happens. When the server is done, its result goes to nobody, the slot is free, and the
/// client that waits for it is woken.
pub proof fn law_abandoned_call_ends_with_the_server<Req, Resp>(
    pre: System<Req, Resp>,
    call: int,
    server: int,
    event: Event<Req, Resp>,
    post: System<Req, Resp>,
)
    requires
        pre.in_phase(Phase::Abandoned { call, server }),
        next(pre, event, post),
    ensures
        event.made !is Complete ==> post.in_phase(Phase::Abandoned { call, server }),
        event.made is Complete ==> {
            &&& event.by == server
            &&& post.in_phase(Phase::Idle)
            &&& woken(pre.state, event.made) == pre.state.waiting_client_slot_waker
        },
{
    lemma_next_phase(pre, Phase::Abandoned { call, server }, event, post);
}

// ---- From the request to the result ----

/// At `at`, the call `call` queues `request`.
pub open spec fn submitted_at<Req, Resp>(
    events: Seq<Event<Req, Resp>>,
    at: int,
    call: int,
    request: Req,
) -> bool {
    &&& 0 <= at < events.len()
    &&& events[at] == (Event { by: call, made: Move::<Req, Resp>::Submit { request } })
}

/// At `at`, the server `server` takes `request`, and is to complete the call `call`.
pub open spec fn taken_at<Req, Resp>(
    trace: Seq<System<Req, Resp>>,
    events: Seq<Event<Req, Resp>>,
    at: int,
    server: int,
    call: int,
    request: Req,
) -> bool {
    &&& 0 <= at < events.len()
    &&& events[at].by == server
    &&& events[at].made matches Move::PollRequest { taken, .. } && taken == Some(request)
    &&& trace[at + 1].handles[server] == call
}

/// At `at`, the server `server` completes the call `call` with `result`.
pub open spec fn completed_at<Req, Resp>(
    trace: Seq<System<Req, Resp>>,
    events: Seq<Event<Req, Resp>>,
    at: int,
    server: int,
    call: int,
    result: Result<Resp, RequestDroppedError>,
) -> bool {
    &&& 0 <= at < events.len()
    &&& events[at] == (Event { by: server, made: Move::<Req, Resp>::Complete { result } })
    &&& trace[at].handles[server] == call
}

/// A call in flight has queued its request.
proof fn lemma_request_was_submitted<Req, Resp>(
    trace: Seq<System<Req, Resp>>,
    events: Seq<Event<Req, Resp>>,
    i: int,
    call: int,
) -> (submitted: int)
    requires
        execution(State::empty(), trace, events),
        0 <= i < trace.len(),
        trace[i].is_in_flight(call),
    ensures
        submitted < i,
        submitted_at(events, submitted, call, trace[i].request_of(call)),
    decreases i,
{
    let event = events[i - 1];
    if event.made is Submit && event.by == call {
        i - 1
    } else {
        lemma_request_was_submitted(trace, events, i - 1, call)
    }
}

/// A call queues one request only.
proof fn lemma_request_stays<Req, Resp>(
    trace: Seq<System<Req, Resp>>,
    events: Seq<Event<Req, Resp>>,
    submitted: int,
    call: int,
    request: Req,
    i: int,
)
    requires
        execution(State::empty(), trace, events),
        submitted_at(events, submitted, call, request),
        submitted < i < trace.len(),
    ensures
        trace[i].is_in_flight(call) || trace[i].is_ended(call),
        trace[i].is_in_flight(call) ==> trace[i].request_of(call) == request,
    decreases i,
{
    assert(next(trace[i - 1], events[i - 1], trace[i]));
    if i > submitted + 1 {
        lemma_request_stays(trace, events, submitted, call, request, i - 1);
    }
}

/// A server that has a request took it, and it is that of the call that it is to complete.
proof fn lemma_request_was_taken<Req, Resp>(
    trace: Seq<System<Req, Resp>>,
    events: Seq<Event<Req, Resp>>,
    i: int,
    server: int,
) -> (found: (int, int, Req))
    requires
        execution(State::empty(), trace, events),
        0 <= i < trace.len(),
        trace[i].handles.contains_key(server),
    ensures
        found.0 < found.1 < i,
        submitted_at(events, found.0, trace[i].handles[server], found.2),
        taken_at(trace, events, found.1, server, trace[i].handles[server], found.2),
    decreases i,
{
    let event = events[i - 1];
    if trace[i - 1].handles.contains_key(server) {
        lemma_request_was_taken(trace, events, i - 1, server)
    } else {
        let call = trace[i].handles[server];
        law_execution_is_coherent(trace, events, i - 1);
        let submitted = lemma_request_was_submitted(trace, events, i - 1, call);
        (submitted, i - 1, trace[i - 1].request_of(call))
    }
}

/// A call that has a result was completed with it.
proof fn lemma_result_was_completed<Req, Resp>(
    trace: Seq<System<Req, Resp>>,
    events: Seq<Event<Req, Resp>>,
    i: int,
    call: int,
) -> (found: (int, int))
    requires
        execution(State::empty(), trace, events),
        0 <= i < trace.len(),
        trace[i].results.contains_key(call),
    ensures
        found.0 < i,
        completed_at(trace, events, found.0, found.1, call, trace[i].results[call]),
        trace[found.0].handles.contains_key(found.1),
    decreases i,
{
    let event = events[i - 1];
    if trace[i - 1].results.contains_key(call) {
        law_execution_is_coherent(trace, events, i - 1);
        law_result_is_final(trace[i - 1], event, trace[i], call);
        lemma_result_was_completed(trace, events, i - 1, call)
    } else {
        (i - 1, event.by)
    }
}

/// The result of a completed call stays what it is.
pub proof fn law_result_stays<Req, Resp>(
    trace: Seq<System<Req, Resp>>,
    events: Seq<Event<Req, Resp>>,
    completed: int,
    server: int,
    call: int,
    result: Result<Resp, RequestDroppedError>,
    i: int,
)
    requires
        execution(State::empty(), trace, events),
        completed_at(trace, events, completed, server, call, result),
        completed < i < trace.len(),
    ensures
        trace[i].results.contains_key(call),
        trace[i].results[call] == result,
    decreases i,
{
    if i > completed + 1 {
        law_result_stays(trace, events, completed, server, call, result, i - 1);
        law_execution_is_coherent(trace, events, i - 1);
        law_result_is_final(trace[i - 1], events[i - 1], trace[i], call);
    }
}

/// No call is completed twice, whoever completes it.
pub proof fn law_call_is_completed_once<Req, Resp>(
    trace: Seq<System<Req, Resp>>,
    events: Seq<Event<Req, Resp>>,
    call: int,
    i: int,
    server: int,
    result: Result<Resp, RequestDroppedError>,
    j: int,
    other_server: int,
    other_result: Result<Resp, RequestDroppedError>,
)
    requires
        execution(State::empty(), trace, events),
        completed_at(trace, events, i, server, call, result),
        completed_at(trace, events, j, other_server, call, other_result),
    ensures
        i == j,
{
    if i < j {
        law_result_stays(trace, events, i, server, call, result, j);
        law_execution_is_coherent(trace, events, j);
    } else if j < i {
        law_result_stays(trace, events, j, other_server, call, other_result, i);
        law_execution_is_coherent(trace, events, i);
    }
}

/// What a client gets, a server gave for this client's request: whenever a call ends with a
/// result, it had queued a request, a server took that request after, and completed the call with
/// that result.
pub proof fn law_result_is_for_the_request<Req, Resp>(
    trace: Seq<System<Req, Resp>>,
    events: Seq<Event<Req, Resp>>,
    i: int,
    call: int,
    waker: Waker,
    result: Result<Resp, RequestDroppedError>,
)
    requires
        execution(State::empty(), trace, events),
        0 <= i < events.len(),
        events[i] == (Event {
            by: call,
            made: Move::<Req, Resp>::PollResponse { waker, response: Some(result) },
        }),
    ensures
        ({
            let request = trace[i].request_of(call);
            exists|submitted: int, taken: int, completed: int, server: int|
                {
                    &&& submitted < taken < completed < i
                    &&& #[trigger] submitted_at(events, submitted, call, request)
                    &&& #[trigger] taken_at(trace, events, taken, server, call, request)
                    &&& #[trigger] completed_at(trace, events, completed, server, call, result)
                }
        }),
{
    law_execution_is_coherent(trace, events, i);
    law_client_gets_its_result(trace[i], call, waker, Some(result), trace[i + 1]);
    let (completed, server) = lemma_result_was_completed(trace, events, i, call);
    let (submitted, taken, request) = lemma_request_was_taken(trace, events, completed, server);
    lemma_request_stays(trace, events, submitted, call, request, i);
}

// ---- The calls of a service ----

/// A call on a new service that is polled and gives a result had queued the request that it was
/// started with, a server took that request after, and completed this call with that result.
pub proof fn law_call_gets_the_result_of_its_request<M, Req, Resp>(
    call: RequestCall<'_, M, Req, Resp>,
    waker: Waker,
    result: Result<Resp, RequestDroppedError>,
    after: RequestCall<'_, M, Req, Resp>,
)
    requires
        call.cell().initial() == State::<Req, Resp>::empty(),
        call.polled(waker, Some(result), after),
        after.wf(),
    ensures
        ({
            let trace = after.history().trace;
            let events = after.history().events;
            let request = call.request();
            exists|submitted: int, taken: int, completed: int, server: int|
                {
                    &&& submitted < taken < completed < events.len() - 1
                    &&& #[trigger] submitted_at(events, submitted, me(), request)
                    &&& #[trigger] taken_at(trace, events, taken, server, me(), request)
                    &&& #[trigger] completed_at(trace, events, completed, server, me(), result)
                }
        }),
{
    let trace = after.history().trace;
    let events = after.history().events;
    let i = events.len() - 1;
    let asked = events[i].made->PollResponse_waker;
    law_result_is_for_the_request(trace, events, i, me(), asked, result);
}

/// A server that has finished its request on a new service has completed it once. If the client
/// is still there, what is queued for it is that result, and else nothing is queued. The server
/// has nothing more to complete.
pub proof fn law_request_is_completed_once<M, Req, Resp>(
    served: ServedRequest<'_, M, Req, Resp>,
    result: Result<Resp, RequestDroppedError>,
    journal: Journal<M, Req, Resp>,
)
    requires
        served.cell().initial() == State::<Req, Resp>::empty(),
        served.completed_with(result, journal),
    ensures
        journal@.moves() == served.history().moves().push(Move::Complete { result }),
        step(journal@.before(), (Move::Complete { result }), journal@.now().state),
        !journal@.before().client_abandoned ==> journal@.now().state.queued_response == Some(
            result,
        ),
        journal@.before().client_abandoned ==> journal@.now().state.queued_response is None,
        !journal@.now().handles.contains_key(me()),
{
    let events = journal@.events;
    law_execution_is_coherent(journal@.trace, events, events.len() - 1);
}

/// Each state that a call on a new service meets is one in which there is one call at most, and
/// no waker stands beside the thing that it is registered for.
pub proof fn law_call_meets_coherent_systems<M, Req, Resp>(
    call: RequestCall<'_, M, Req, Resp>,
    i: int,
)
    requires
        call.wf(),
        call.cell().initial() == State::<Req, Resp>::empty(),
        0 <= i < call.history().trace.len(),
    ensures
        call.history().trace[i].coherent(),
        call.cell().may_hold(call.history().trace[i].state),
{
    let trace = call.history().trace;
    let events = call.history().events;
    law_execution_is_coherent(trace, events, i);
    assert(execution(call.cell().initial(), trace.take(i + 1), events.take(i)));
}

} // verus!

//! What each operation does, in terms of what goes in and what comes out.
//!
//! The laws that speak of an operation take its contract as it stands (`call_ensures`), and say
//! what every outcome that the contract allows has to satisfy.
use crate::state::{step, Applied, Move, RequestDroppedError, SlotAnswer, State};
use crate::sync::{same_task, told_apart};
use core::task::Waker;
use vstd::multiset::Multiset;
use vstd::prelude::*;

verus! {

// ---- Every move ----

/// What `thing` holds.
pub open spec fn one<T>(thing: Option<T>) -> Multiset<T> {
    match thing {
        Some(value) => Multiset::singleton(value),
        None => Multiset::empty(),
    }
}

/// No waker gets lost or is doubled: those that were registered and the one that was handed in are
/// after the move registered, to be woken, or let go of.
pub proof fn law_wakers_are_conserved<T, Req, Resp>(
    pre: State<Req, Resp>,
    made: Move<Req, Resp>,
    post: State<Req, Resp>,
    applied: Applied<T, Req, Resp>,
)
    requires
        step(pre, made, post),
        applied.comes_of(pre, made),
    ensures
        ({
            let handed_in = match made {
                Move::PollSlot { waker, .. } => one(Some(waker)),
                Move::PollResponse { waker, .. } => one(Some(waker)),
                Move::PollRequest { waker, .. } => one(Some(waker)),
                _ => Multiset::empty(),
            };
            one(pre.waiting_client_slot_waker).add(one(pre.waiting_client_response_waker)).add(
                one(pre.waiting_server_waker),
            ).add(handed_in) =~= one(post.waiting_client_slot_waker).add(
                one(post.waiting_client_response_waker),
            ).add(one(post.waiting_server_waker)).add(one(applied.to_wake)).add(
                one(applied.discarded.waker),
            )
        }),
{
}

/// No request gets lost or is doubled: the one that was queued and the one that was handed in are
/// after the move queued, handed over, or let go of. One that is handed over is not let go of.
pub proof fn law_requests_are_conserved<T, Req, Resp>(
    pre: State<Req, Resp>,
    made: Move<Req, Resp>,
    post: State<Req, Resp>,
    applied: Applied<T, Req, Resp>,
)
    requires
        step(pre, made, post),
        applied.comes_of(pre, made),
    ensures
        ({
            let submitted = match made {
                Move::Submit { request } => one(Some(request)),
                _ => Multiset::empty(),
            };
            let got = match made {
                Move::PollRequest { taken, .. } => one(taken),
                _ => Multiset::empty(),
            };
            one(pre.queued_request).add(submitted) =~= one(post.queued_request).add(got).add(
                one(applied.discarded.request),
            )
        }),
        applied.discarded.request is Some ==> pre.queued_request is Some && (made is Cancel
            || made is Submit),
{
}

/// No result gets lost or is doubled: the one that was queued and the one that was handed in are
/// after the move queued, handed over, or let go of. What a client has not seen is let go of only
/// if that client goes away or has gone, or if there is a newer result.
pub proof fn law_results_are_conserved<T, Req, Resp>(
    pre: State<Req, Resp>,
    made: Move<Req, Resp>,
    post: State<Req, Resp>,
    applied: Applied<T, Req, Resp>,
)
    requires
        step(pre, made, post),
        applied.comes_of(pre, made),
    ensures
        ({
            let completed = match made {
                Move::Complete { result } => one(Some(result)),
                _ => Multiset::empty(),
            };
            let got = match made {
                Move::PollResponse { response, .. } => one(response),
                _ => Multiset::empty(),
            };
            one(pre.queued_response).add(completed) =~= one(post.queued_response).add(got).add(
                one(applied.discarded.response),
            )
        }),
        applied.discarded.response is Some ==> {
            ||| made is Cancel && pre.queued_response is Some
            ||| made is Complete && pre.client_abandoned
            ||| made is Complete && pre.queued_response is Some
        },
{
}

/// Only who can go on is woken: the client that waits for the slot when the slot gets free or when
/// another client takes its place, the server when a request is queued, and the client that waits
/// for a response when one is queued. A move that brings nothing about wakes nobody.
pub proof fn law_only_who_can_go_on_is_woken<T, Req, Resp>(
    pre: State<Req, Resp>,
    made: Move<Req, Resp>,
    post: State<Req, Resp>,
    applied: Applied<T, Req, Resp>,
)
    requires
        step(pre, made, post),
        applied.comes_of(pre, made),
    ensures
        applied.to_wake matches Some(woken) ==> {
            ||| {
                &&& pre.waiting_client_slot_waker == Some(woken)
                &&& made is PollResponse || made is Cancel || made is Complete
                &&& !post.client_busy
                &&& post.waiting_client_slot_waker is None
            }
            ||| {
                &&& pre.waiting_client_slot_waker == Some(woken)
                &&& made matches Move::PollSlot { waker, .. } && told_apart(woken, waker)
                    && post.waiting_client_slot_waker == Some(waker)
                &&& pre.client_busy
            }
            ||| {
                &&& pre.waiting_server_waker == Some(woken)
                &&& made matches Move::Submit { request } && post.queued_request == Some(request)
                &&& post.waiting_server_waker is None
            }
            ||| {
                &&& pre.waiting_client_response_waker == Some(woken)
                &&& made matches Move::Complete { result } && post.queued_response == Some(result)
                &&& post.waiting_client_response_waker is None
            }
        },
        (made matches Move::PollResponse { response, .. } && response is None)
            ==> applied.to_wake is None,
        made is PollRequest ==> applied.to_wake is None,
        (made matches Move::PollSlot { answer, .. } && answer is Acquired)
            ==> applied.to_wake is None,
        made is Cancel && pre.client_busy && post.client_busy ==> applied.to_wake is None,
{
}

/// Who can go on is woken: whoever is registered when the slot gets free, when a request is queued
/// or when a response is queued, and a client that waits for the slot and has to make room for
/// another task.
pub proof fn law_who_can_go_on_is_woken<T, Req, Resp>(
    pre: State<Req, Resp>,
    made: Move<Req, Resp>,
    post: State<Req, Resp>,
    applied: Applied<T, Req, Resp>,
)
    requires
        step(pre, made, post),
        applied.comes_of(pre, made),
    ensures
        pre.client_busy && !post.client_busy ==> applied.to_wake == pre.waiting_client_slot_waker,
        made is Submit ==> applied.to_wake == pre.waiting_server_waker,
        made is Complete && !pre.client_abandoned ==> applied.to_wake
            == pre.waiting_client_response_waker,
        made matches Move::PollSlot { waker, .. } ==> (pre.waiting_client_slot_waker matches Some(
            other,
        ) ==> pre.client_busy ==> applied.to_wake == Some(other) || same_task(other, waker)),
{
}

/// The slot is taken by a client that asks while it is free, and in no other way. It gets free by
/// a result that is handed over, by a client that goes away with something of its call queued, and
/// by a server that completes the call of a client that has gone, and in no other way.
pub proof fn law_slot_is_taken_and_freed<Req, Resp>(
    pre: State<Req, Resp>,
    made: Move<Req, Resp>,
    post: State<Req, Resp>,
)
    requires
        step(pre, made, post),
    ensures
        !pre.client_busy && post.client_busy <==> made is PollSlot && !pre.client_busy,
        pre.client_busy && !post.client_busy <==> pre.client_busy && {
            ||| made is PollResponse && pre.queued_response is Some
            ||| made is Cancel && (pre.queued_request is Some || pre.queued_response is Some)
            ||| made is Complete && pre.client_abandoned
        },
        !pre.client_abandoned && post.client_abandoned <==> !pre.client_abandoned && made is Cancel
            && pre.queued_request is None && pre.queued_response is None,
        pre.client_abandoned && !post.client_abandoned ==> !post.client_busy && (made is Cancel
            || made is Complete),
{
}

/// What is queued comes and goes in one way: a request is queued by being submitted, and goes to
/// the server that takes it or with the client that goes away. A result is queued by a completion,
/// and goes to the client that asks or with the client that goes away.
pub proof fn law_queue_changes<Req, Resp>(
    pre: State<Req, Resp>,
    made: Move<Req, Resp>,
    post: State<Req, Resp>,
)
    requires
        step(pre, made, post),
    ensures
        post.queued_request != pre.queued_request ==> {
            ||| made matches Move::Submit { request } && post.queued_request == Some(request)
            ||| made matches Move::PollRequest { taken, .. } && taken == pre.queued_request
                && post.queued_request is None
            ||| made is Cancel && post.queued_request is None
        },
        post.queued_response != pre.queued_response ==> {
            ||| made matches Move::Complete { result } && !pre.client_abandoned
                && post.queued_response == Some(result)
            ||| made matches Move::PollResponse { response, .. } && response
                == pre.queued_response && post.queued_response is None
            ||| made is Cancel && post.queued_response is None
        },
        made is PollRequest ==> post.queued_request is None,
        made is PollResponse ==> post.queued_response is None,
        made is Cancel ==> post.queued_request is None,
        made is Cancel && pre.queued_request is None ==> post.queued_response is None,
{
}

/// A waker is registered by the task that is told to wait for the same thing, and its place gets
/// empty only when that thing comes.
pub proof fn law_registrations_change<Req, Resp>(
    pre: State<Req, Resp>,
    made: Move<Req, Resp>,
    post: State<Req, Resp>,
)
    requires
        step(pre, made, post),
    ensures
        post.waiting_client_slot_waker != pre.waiting_client_slot_waker ==> {
            ||| made matches Move::PollSlot { waker, .. } && pre.client_busy
                && post.waiting_client_slot_waker == Some(waker)
            ||| !post.client_busy && post.waiting_client_slot_waker is None && (made is PollResponse
                || made is Cancel || made is Complete)
        },
        post.waiting_client_response_waker != pre.waiting_client_response_waker ==> {
            ||| made matches Move::PollResponse { waker, response } && response is None
                && post.waiting_client_response_waker == Some(waker)
            ||| made is Complete && post.queued_response is Some
                && post.waiting_client_response_waker is None
        },
        post.waiting_server_waker != pre.waiting_server_waker ==> {
            ||| made matches Move::PollRequest { waker, taken } && taken is None
                && post.waiting_server_waker == Some(waker)
            ||| made is Submit && post.queued_request is Some && post.waiting_server_waker is None
        },
{
}

// ---- The operations on a state ----

/// [`State::new`] makes a state in which the slot is free, nothing is queued and nobody waits.
pub proof fn law_new_state<Req, Resp>(state: State<Req, Resp>)
    requires
        call_ensures(State::<Req, Resp>::new, (), state),
    ensures
        !state.client_busy,
        !state.client_abandoned,
        state.queued_request is None,
        state.queued_response is None,
        state.waiting_client_slot_waker is None,
        state.waiting_client_response_waker is None,
        state.waiting_server_waker is None,
{
}

/// [`State::poll_slot`] gives the slot exactly if it is free. Else the caller's waker is
/// registered, whoever else was, and nothing but that changes. Another task that was registered
/// is woken, and the caller's own is not.
pub proof fn law_poll_slot<Req, Resp>(
    state: &mut State<Req, Resp>,
    waker: Waker,
    applied: Applied<SlotAnswer, Req, Resp>,
)
    requires
        call_ensures(State::<Req, Resp>::poll_slot, (state, waker), applied),
    ensures
        applied.output is Acquired <==> !old(state).client_busy,
        final(state).client_busy,
        old(state).client_busy ==> final(state).waiting_client_slot_waker == Some(waker),
        !old(state).client_busy ==> final(state).waiting_client_slot_waker == old(
            state,
        ).waiting_client_slot_waker && applied.to_wake is None,
        applied.to_wake matches Some(other) ==> old(state).waiting_client_slot_waker == Some(other)
            && told_apart(other, waker),
        old(state).waiting_client_slot_waker matches Some(other) ==> old(state).client_busy
            && applied.to_wake is None ==> same_task(other, waker),
        final(state).client_abandoned == old(state).client_abandoned,
        final(state).queued_request == old(state).queued_request,
        final(state).queued_response == old(state).queued_response,
        final(state).waiting_client_response_waker == old(state).waiting_client_response_waker,
        final(state).waiting_server_waker == old(state).waiting_server_waker,
        applied.discarded.request is None,
        applied.discarded.response is None,
{
}

/// [`State::submit`] queues the request and wakes the server that waits. Nothing else changes.
pub proof fn law_submit<Req, Resp>(
    state: &mut State<Req, Resp>,
    request: Req,
    applied: Applied<(), Req, Resp>,
)
    requires
        call_ensures(State::<Req, Resp>::submit, (state, request), applied),
    ensures
        final(state).queued_request == Some(request),
        applied.to_wake == old(state).waiting_server_waker,
        final(state).waiting_server_waker is None,
        applied.discarded.request == old(state).queued_request,
        applied.discarded.response is None,
        applied.discarded.waker is None,
        final(state).client_busy == old(state).client_busy,
        final(state).client_abandoned == old(state).client_abandoned,
        final(state).queued_response == old(state).queued_response,
        final(state).waiting_client_slot_waker == old(state).waiting_client_slot_waker,
        final(state).waiting_client_response_waker == old(state).waiting_client_response_waker,
{
}

/// [`State::poll_response`] gives the queued response, if there is one. Then the slot is free, and
/// the client that waits for it is woken. Else the caller's waker is registered, nothing but that
/// changes, and nobody is woken, the caller neither.
pub proof fn law_poll_response<Req, Resp>(
    state: &mut State<Req, Resp>,
    waker: Waker,
    applied: Applied<Option<Result<Resp, RequestDroppedError>>, Req, Resp>,
)
    requires
        call_ensures(State::<Req, Resp>::poll_response, (state, waker), applied),
    ensures
        applied.output == old(state).queued_response,
        final(state).queued_response is None,
        applied.output is Some ==> {
            &&& !final(state).client_busy
            &&& applied.to_wake == old(state).waiting_client_slot_waker
            &&& final(state).waiting_client_slot_waker is None
            &&& final(state).waiting_client_response_waker == old(
                state,
            ).waiting_client_response_waker
        },
        applied.output is None ==> {
            &&& final(state).waiting_client_response_waker == Some(waker)
            &&& applied.to_wake is None
            &&& final(state).client_busy == old(state).client_busy
            &&& final(state).waiting_client_slot_waker == old(state).waiting_client_slot_waker
        },
        final(state).client_abandoned == old(state).client_abandoned,
        final(state).queued_request == old(state).queued_request,
        final(state).waiting_server_waker == old(state).waiting_server_waker,
        applied.discarded.request is None,
        applied.discarded.response is None,
{
}

/// [`State::cancel`] takes away what is queued of the call, frees the slot and wakes the client
/// that waits for it. If nothing is queued, a server is at work: the slot stays taken, the call is
/// abandoned, and nobody is woken.
pub proof fn law_cancel<Req, Resp>(
    state: &mut State<Req, Resp>,
    applied: Applied<(), Req, Resp>,
)
    requires
        call_ensures(State::<Req, Resp>::cancel, (state,), applied),
    ensures
        ({
            let queued = old(state).queued_request is Some || old(state).queued_response is Some;
            &&& queued ==> {
                &&& !final(state).client_busy
                &&& !final(state).client_abandoned
                &&& applied.to_wake == old(state).waiting_client_slot_waker
                &&& final(state).waiting_client_slot_waker is None
            }
            &&& !queued ==> {
                &&& final(state).client_busy == old(state).client_busy
                &&& final(state).client_abandoned
                &&& applied.to_wake is None
                &&& final(state).waiting_client_slot_waker == old(state).waiting_client_slot_waker
            }
        }),
        final(state).queued_request is None,
        applied.discarded.request == old(state).queued_request,
        old(state).queued_request is None ==> {
            &&& final(state).queued_response is None
            &&& applied.discarded.response == old(state).queued_response
        },
        applied.discarded.waker is None,
        final(state).waiting_client_response_waker == old(state).waiting_client_response_waker,
        final(state).waiting_server_waker == old(state).waiting_server_waker,
{
}

/// [`State::poll_request`] gives the queued request, if there is one. Else the caller's waker is
/// registered. Nothing but that changes, and nobody is woken.
pub proof fn law_poll_request<Req, Resp>(
    state: &mut State<Req, Resp>,
    waker: Waker,
    applied: Applied<Option<Req>, Req, Resp>,
)
    requires
        call_ensures(State::<Req, Resp>::poll_request, (state, waker), applied),
    ensures
        applied.output == old(state).queued_request,
        final(state).queued_request is None,
        applied.to_wake is None,
        applied.output is None ==> final(state).waiting_server_waker == Some(waker),
        applied.output is Some ==> final(state).waiting_server_waker == old(
            state,
        ).waiting_server_waker,
        final(state).client_busy == old(state).client_busy,
        final(state).client_abandoned == old(state).client_abandoned,
        final(state).queued_response == old(state).queued_response,
        final(state).waiting_client_slot_waker == old(state).waiting_client_slot_waker,
        final(state).waiting_client_response_waker == old(state).waiting_client_response_waker,
        applied.discarded.request is None,
        applied.discarded.response is None,
{
}

/// [`State::complete`] queues the result for a client that is there, and wakes it. If the client
/// has gone, nobody gets the result, the slot is free, and the client that waits for it is woken.
pub proof fn law_complete<Req, Resp>(
    state: &mut State<Req, Resp>,
    result: Result<Resp, RequestDroppedError>,
    applied: Applied<(), Req, Resp>,
)
    requires
        call_ensures(State::<Req, Resp>::complete, (state, result), applied),
    ensures
        !old(state).client_abandoned ==> {
            &&& final(state).queued_response == Some(result)
            &&& applied.to_wake == old(state).waiting_client_response_waker
            &&& final(state).waiting_client_response_waker is None
            &&& final(state).client_busy == old(state).client_busy
            &&& final(state).waiting_client_slot_waker == old(state).waiting_client_slot_waker
        },
        old(state).client_abandoned ==> {
            &&& final(state).queued_response == old(state).queued_response
            &&& applied.to_wake == old(state).waiting_client_slot_waker
            &&& final(state).waiting_client_slot_waker is None
            &&& !final(state).client_busy
            &&& applied.discarded.response == Some(result)
            &&& final(state).waiting_client_response_waker == old(
                state,
            ).waiting_client_response_waker
        },
        !final(state).client_abandoned,
        final(state).queued_request == old(state).queued_request,
        final(state).waiting_server_waker == old(state).waiting_server_waker,
        applied.discarded.waker is None,
        applied.discarded.request is None,
{
}

} // verus!

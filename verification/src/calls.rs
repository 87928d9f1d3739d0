//! What the calls on a service do, in terms of what goes in and what comes out.
//!
//! The laws take the contract of an operation as it stands (`call_ensures`), and say what every
//! outcome that the contract allows has to satisfy. What a call finds and leaves behind is read
//! off its history: the state before and after its last move, and the wakers that it has woken.
use crate::laws::{
    completed_at, law_client_gets_its_result, law_execution_is_coherent, law_result_stays,
    law_server_gets_the_request,
};
use crate::protocol::{next, Progress};
use crate::service::{RequestCall, RequestStage, RpcService, ServeCall, ServedRequest};
use crate::session::{held, lemma_one_move, lemma_own_events, wakes_at};
use crate::state::{Move, RequestDroppedError, SlotAnswer, State};
use crate::sync::{me, History, Journal};
use core::task::Waker;
use embassy_sync::blocking_mutex::raw::RawMutex;
use vstd::prelude::*;

verus! {

/// From `earlier` on, the user has made a move at `i`.
pub open spec fn moved_at<Req, Resp>(
    earlier: History<Req, Resp>,
    later: History<Req, Resp>,
    i: int,
) -> bool {
    earlier.events.len() <= i < later.events.len() && later.events[i].by == me()
}

// ---- The client ----

/// A poll only asks for the slot, queues the request that the call was started with, and asks for
/// the response. It does each of them once at most, and the first two only if the call had still
/// to queue its request. It does not withdraw the call, and does not touch the server's part. The
/// last thing it does is to ask.
pub proof fn law_poll_keeps_to_its_part<'a, M: RawMutex, Req, Resp>(
    call: &mut RequestCall<'a, M, Req, Resp>,
    waker: &Waker,
    result: Option<Result<Resp, RequestDroppedError>>,
)
    requires
        old(call).wf(),
        old(call).stage() !is Finished,
        call_ensures(RequestCall::<'a, M, Req, Resp>::poll, (call, waker), result),
    ensures
        final(call).wf(),
        final(call).cell() == old(call).cell(),
        final(call).request() == old(call).request(),
        final(call).history().goes_on_from(old(call).history()),
        ({
            let earlier = old(call).history();
            let later = final(call).history();
            let waiting = old(call).stage() is Waiting;
            &&& moved_at(earlier, later, later.events.len() - 1)
            &&& later.events.last().made is PollSlot || later.events.last().made is PollResponse
            &&& forall|i: int| #[trigger]
                moved_at(earlier, later, i) ==> match later.events[i].made {
                    Move::PollSlot { waker: left, .. } => waiting && cloned(*waker, left),
                    Move::Submit { request } => waiting && request == old(call).request(),
                    Move::PollResponse { waker: left, .. } => cloned(*waker, left),
                    Move::Cancel => false,
                    Move::PollRequest { .. } => false,
                    Move::Complete { .. } => false,
                }
            &&& forall|i: int, j: int|
                i < j && #[trigger] moved_at(earlier, later, i) && #[trigger] moved_at(
                    earlier,
                    later,
                    j,
                ) ==> {
                    ||| later.events[i].made is PollSlot && later.events[j].made is Submit
                    ||| later.events[i].made is PollSlot && later.events[j].made is PollResponse
                    ||| later.events[i].made is Submit && later.events[j].made is PollResponse
                }
        }),
{
    lemma_polled(*old(call), *waker, result, *final(call));
}

/// The moves of a poll, and where they stand in the history.
proof fn lemma_polled<'a, M, Req, Resp>(
    call: RequestCall<'a, M, Req, Resp>,
    waker: Waker,
    result: Option<Result<Resp, RequestDroppedError>>,
    after: RequestCall<'a, M, Req, Resp>,
) -> (at: Seq<int>)
    requires
        call.wf(),
        call.polled(waker, result, after),
        after.wf(),
    ensures
        after.cell() == call.cell(),
        after.request() == call.request(),
        after.history().goes_on_from(call.history()),
        at.len() == 1 || at.len() == 3,
        at.last() == after.history().events.len() - 1,
        forall|k: int|
            0 <= k < at.len() ==> moved_at(call.history(), after.history(), #[trigger] at[k]),
        forall|k: int, l: int| 0 <= k < l < at.len() ==> #[trigger] at[k] < #[trigger] at[l],
        forall|i: int| #[trigger]
            moved_at(call.history(), after.history(), i) ==> at.contains(i),
        after.history().woken == call.history().woken + wakes_at(
            after.history().trace,
            after.history().events,
            at,
        ),
        at.len() == 1 && call.stage() is InFlight ==> (after.history().events[at[0]].made matches
            Move::PollResponse { waker: left, response } && cloned(waker, left) && response
            == result),
        at.len() == 1 && call.stage() is Waiting ==> result is None && after.stage()
            == call.stage() && (after.history().events[at[0]].made matches Move::PollSlot {
            waker: left,
            answer,
        } && cloned(waker, left) && answer !is Acquired),
        at.len() == 3 ==> {
            &&& call.stage() is Waiting
            &&& after.history().events[at[0]].made matches Move::PollSlot { waker: left, answer }
                && cloned(waker, left) && answer is Acquired
            &&& after.history().events[at[1]].made == (Move::<Req, Resp>::Submit {
                request: call.request(),
            })
            &&& after.history().events[at[2]].made matches Move::PollResponse {
                waker: left,
                response,
            } && cloned(waker, left) && response == result
        },
        at.len() == 3 || call.stage() is InFlight ==> after.stage() == if result is Some {
            RequestStage::<Req>::Finished
        } else {
            RequestStage::<Req>::InFlight
        },
{
    let start = call.cell().initial();
    let earlier = call.history();
    let later = after.history();
    match call.stage() {
        RequestStage::Waiting { request } => {
            if exists|slot: Waker| #[trigger]
                cloned(waker, slot) && later.extends(
                    earlier,
                    start,
                    seq![Move::PollSlot { waker: slot, answer: SlotAnswer::Registered }],
                ) && result is None && after.stage() == call.stage() {
                let slot = choose|slot: Waker| #[trigger]
                    cloned(waker, slot) && later.extends(
                        earlier,
                        start,
                        seq![Move::PollSlot { waker: slot, answer: SlotAnswer::Registered }],
                    );
                lemma_own_events(
                    start,
                    earlier,
                    later,
                    seq![Move::PollSlot { waker: slot, answer: SlotAnswer::Registered }],
                )
            } else if exists|slot: Waker| #[trigger]
                cloned(waker, slot) && later.extends(
                    earlier,
                    start,
                    seq![Move::PollSlot { waker: slot, answer: SlotAnswer::Renewed }],
                ) && result is None && after.stage() == call.stage() {
                let slot = choose|slot: Waker| #[trigger]
                    cloned(waker, slot) && later.extends(
                        earlier,
                        start,
                        seq![Move::PollSlot { waker: slot, answer: SlotAnswer::Renewed }],
                    );
                lemma_own_events(
                    start,
                    earlier,
                    later,
                    seq![Move::PollSlot { waker: slot, answer: SlotAnswer::Renewed }],
                )
            } else {
                let (slot, response) = choose|slot: Waker, response: Waker| #[trigger]
                    cloned(waker, slot) && #[trigger] cloned(waker, response) && call.proceeds(
                        seq![
                            Move::PollSlot { waker: slot, answer: SlotAnswer::Acquired },
                            Move::Submit { request },
                            Move::PollResponse { waker: response, response: result },
                        ],
                        after.stage(),
                        after,
                    );
                lemma_own_events(
                    start,
                    earlier,
                    later,
                    seq![
                        Move::PollSlot { waker: slot, answer: SlotAnswer::Acquired },
                        Move::Submit { request },
                        Move::PollResponse { waker: response, response: result },
                    ],
                )
            }
        },
        _ => {
            let response = choose|response: Waker| #[trigger]
                cloned(waker, response) && later.extends(
                    earlier,
                    start,
                    seq![Move::PollResponse { waker: response, response: result }],
                );
            lemma_own_events(
                start,
                earlier,
                later,
                seq![Move::PollResponse { waker: response, response: result }],
            )
        },
    }
}

/// A poll that gives no result does not end the call. A call that waits for the slot still has its
/// request, or has queued it. A call whose request is queued goes on waiting for the response, and
/// the poll changes nothing but the waker that is registered for it, and wakes nobody.
pub proof fn law_pending_poll_leaves_the_call_going<'a, M: RawMutex, Req, Resp>(
    call: &mut RequestCall<'a, M, Req, Resp>,
    waker: &Waker,
    result: Option<Result<Resp, RequestDroppedError>>,
)
    requires
        old(call).wf(),
        old(call).stage() !is Finished,
        call_ensures(RequestCall::<'a, M, Req, Resp>::poll, (call, waker), result),
        result is None,
    ensures
        final(call).stage() !is Finished,
        !final(call).history().now().is_ended(me()),
        final(call).stage() is Waiting ==> final(call).stage() == (RequestStage::Waiting {
            request: old(call).request(),
        }),
        final(call).stage() is InFlight ==> final(call).has_come_to(
            Progress::InFlight { request: old(call).request() },
        ),
        old(call).stage() is InFlight ==> {
            let before = final(call).history().before();
            let now = final(call).history().now().state;
            &&& final(call).stage() is InFlight
            &&& now.queued_request == before.queued_request
            &&& now.queued_response == before.queued_response
            &&& now.client_busy == before.client_busy
            &&& now.client_abandoned == before.client_abandoned
            &&& now.waiting_client_slot_waker == before.waiting_client_slot_waker
            &&& now.waiting_server_waker == before.waiting_server_waker
            &&& final(call).history().woken == old(call).history().woken
        },
        final(call).stage() is Waiting ==> {
            let before = final(call).history().before();
            let now = final(call).history().now().state;
            &&& now.queued_request == before.queued_request
            &&& now.queued_response == before.queued_response
            &&& now.client_busy == before.client_busy
            &&& now.client_abandoned == before.client_abandoned
            &&& now.waiting_client_response_waker == before.waiting_client_response_waker
            &&& now.waiting_server_waker == before.waiting_server_waker
        },
{
    lemma_polled(*old(call), *waker, result, *final(call));
    reveal_with_fuel(wakes_at, 2);
}

/// A poll that gives no result leaves a clone of its waker where it is found when it is worth
/// polling again, and there was nothing to be had: the slot was taken, or no response was queued.
pub proof fn law_pending_poll_is_registered<'a, M: RawMutex, Req, Resp>(
    call: &mut RequestCall<'a, M, Req, Resp>,
    waker: &Waker,
    result: Option<Result<Resp, RequestDroppedError>>,
)
    requires
        old(call).wf(),
        old(call).stage() !is Finished,
        call_ensures(RequestCall::<'a, M, Req, Resp>::poll, (call, waker), result),
        result is None,
    ensures
        final(call).history().events.len() > old(call).history().events.len(),
        final(call).history().events.last().by == me(),
        final(call).stage() is Waiting ==> {
            &&& final(call).history().before().client_busy
            &&& final(call).history().now().state.waiting_client_slot_waker matches Some(left)
                && cloned(*waker, left)
        },
        final(call).stage() is InFlight ==> {
            &&& final(call).history().before().queued_response is None
            &&& final(call).history().now().state.waiting_client_response_waker matches Some(left)
                && cloned(*waker, left)
        },
{
    lemma_polled(*old(call), *waker, result, *final(call));
}

/// A response that a poll takes is the result that it gives, and there is no other result: from a
/// call that still waits for the slot as well as from one that is in flight. Then the call has
/// ended, the response is no longer queued, and the slot is free.
pub proof fn law_response_that_is_taken_is_given<'a, M: RawMutex, Req, Resp>(
    call: &mut RequestCall<'a, M, Req, Resp>,
    waker: &Waker,
    result: Option<Result<Resp, RequestDroppedError>>,
)
    requires
        old(call).wf(),
        old(call).stage() !is Finished,
        call_ensures(RequestCall::<'a, M, Req, Resp>::poll, (call, waker), result),
    ensures
        ({
            let earlier = old(call).history();
            let later = final(call).history();
            &&& forall|i: int| #[trigger]
                moved_at(earlier, later, i) ==> (later.events[i].made matches Move::PollResponse {
                    response,
                    ..
                } ==> response == result && response == later.trace[i].state.queued_response)
            &&& result is Some ==> exists|i: int| #[trigger]
                moved_at(earlier, later, i) && later.events[i].made is PollResponse
            &&& result is Some <==> later.now().is_ended(me())
            &&& result is Some <==> final(call).stage() is Finished
            &&& result is Some ==> {
                &&& later.before().queued_response == result
                &&& later.now().state.queued_response is None
                &&& !later.now().state.client_busy
            }
        }),
{
    lemma_polled(*old(call), *waker, result, *final(call));
}

/// A poll of a call that waits for the slot gets it exactly if it is free. Then it queues the
/// request that the call was started with, once, and asks for the response after.
pub proof fn law_first_step_queues_the_request<'a, M: RawMutex, Req, Resp>(
    call: &mut RequestCall<'a, M, Req, Resp>,
    waker: &Waker,
    result: Option<Result<Resp, RequestDroppedError>>,
)
    requires
        old(call).wf(),
        old(call).stage() is Waiting,
        call_ensures(RequestCall::<'a, M, Req, Resp>::poll, (call, waker), result),
    ensures
        ({
            let earlier = old(call).history();
            let later = final(call).history();
            let request = old(call).request();
            &&& exists|asked: int| #[trigger]
                moved_at(earlier, later, asked) && later.events[asked].made is PollSlot
            &&& forall|asked: int| #[trigger]
                moved_at(earlier, later, asked) && later.events[asked].made is PollSlot ==> (final(
                    call).stage() is Waiting <==> later.trace[asked].state.client_busy)
            &&& final(call).stage() !is Waiting ==> {
                &&& exists|submitted: int| #[trigger]
                    moved_at(earlier, later, submitted) && later.events[submitted].made is Submit
                &&& later.events.last().made is PollResponse
            }
            &&& forall|submitted: int| #[trigger]
                moved_at(earlier, later, submitted) && later.events[submitted].made is Submit ==> {
                    &&& later.events[submitted].made == (Move::<Req, Resp>::Submit { request })
                    &&& later.trace[submitted + 1].state.queued_request == Some(request)
                    &&& final(call).stage() !is Waiting
                }
        }),
{
    lemma_polled(*old(call), *waker, result, *final(call));
}

/// Whom a poll wakes, and in what order: a client of another task in whose place it waits for the
/// slot, the server that waits when the request is queued, and the client that waits for the slot
/// when the result is handed over. Nobody else.
pub proof fn law_poll_wakes_who_can_go_on<'a, M: RawMutex, Req, Resp>(
    call: &mut RequestCall<'a, M, Req, Resp>,
    waker: &Waker,
    result: Option<Result<Resp, RequestDroppedError>>,
    submitted: int,
)
    requires
        old(call).wf(),
        old(call).stage() !is Finished,
        call_ensures(RequestCall::<'a, M, Req, Resp>::poll, (call, waker), result),
        final(call).stage() !is Waiting && old(call).stage() is Waiting ==> moved_at(
            old(call).history(),
            final(call).history(),
            submitted,
        ) && final(call).history().events[submitted].made is Submit,
    ensures
        ({
            let later = final(call).history();
            let waits_for_slot = held(later.before().waiting_client_slot_waker);
            let nobody: Seq<Waker> = Seq::empty();
            let by_result = if result is Some {
                waits_for_slot
            } else {
                nobody
            };
            let waking = if final(call).stage() is Waiting {
                if later.events.last().made->answer is Registered {
                    waits_for_slot
                } else {
                    nobody
                }
            } else if old(call).stage() is Waiting {
                held(later.trace[submitted].state.waiting_server_waker) + by_result
            } else {
                by_result
            };
            later.woken == old(call).history().woken + waking
        }),
{
    lemma_polled(*old(call), *waker, result, *final(call));
    reveal_with_fuel(wakes_at, 4);
}

/// A poll of a call on a new service gives a result as soon as a server has completed the call,
/// and not before. It is the one with which the server has completed it.
pub proof fn law_poll_gives_the_result_that_is_there<'a, M: RawMutex, Req, Resp>(
    call: &mut RequestCall<'a, M, Req, Resp>,
    waker: &Waker,
    result: Option<Result<Resp, RequestDroppedError>>,
)
    requires
        old(call).wf(),
        old(call).stage() !is Finished,
        old(call).cell().initial() == State::<Req, Resp>::empty(),
        call_ensures(RequestCall::<'a, M, Req, Resp>::poll, (call, waker), result),
        final(call).stage() !is Waiting,
    ensures
        ({
            let trace = final(call).history().trace;
            let found = trace[trace.len() - 2];
            &&& found.has_slot(me())
            &&& result is Some <==> found.results.contains_key(me())
            &&& result matches Some(given) ==> given == found.results[me()]
        }),
{
    lemma_polled(*old(call), *waker, result, *final(call));
    let later = final(call).history();
    let i = later.events.len() - 1;
    law_execution_is_coherent(later.trace, later.events, i);
    let asked = later.events[i].made->PollResponse_waker;
    law_client_gets_its_result(later.trace[i], me(), asked, result, later.trace[i + 1]);
}

/// When a server has completed a call on a new service, the next poll of the call gives that
/// result, however often it was polled before.
pub proof fn law_next_poll_gives_the_result<'a, M: RawMutex, Req, Resp>(
    call: &mut RequestCall<'a, M, Req, Resp>,
    waker: &Waker,
    result: Option<Result<Resp, RequestDroppedError>>,
    completed: int,
    server: int,
    response: Result<Resp, RequestDroppedError>,
)
    requires
        old(call).wf(),
        old(call).stage() is InFlight,
        old(call).cell().initial() == State::<Req, Resp>::empty(),
        call_ensures(RequestCall::<'a, M, Req, Resp>::poll, (call, waker), result),
        completed_at(
            final(call).history().trace,
            final(call).history().events,
            completed,
            server,
            me(),
            response,
        ),
    ensures
        result == Some(response),
        final(call).stage() is Finished,
{
    law_poll_gives_the_result_that_is_there(call, waker, result);
    lemma_polled(*old(call), *waker, result, *final(call));
    let later = final(call).history();
    let last = later.events.len() - 1;
    law_result_stays(later.trace, later.events, completed, server, me(), response, last);
}

/// A call that waits for the slot, or has ended, is given up without a trace: no move, no wake. A
/// call in flight makes one move. If its request or its response is queued, that goes away, the
/// slot is free, and the client that waits for it is woken. Else the call is abandoned, and nobody
/// is woken.
pub proof fn law_cancelled_call<'a, M: RawMutex, Req, Resp>(
    call: RequestCall<'a, M, Req, Resp>,
    journal: Journal<M, Req, Resp>,
)
    requires
        call.wf(),
        call_ensures(RequestCall::<'a, M, Req, Resp>::cancel, (call,), journal),
    ensures
        journal.cell() == call.cell(),
        call.stage() !is InFlight ==> journal@ == call.history(),
        call.stage() is InFlight ==> {
            let last = journal@.events.len() - 1;
            let before = journal@.before();
            let now = journal@.now().state;
            &&& journal@.goes_on_from(call.history())
            &&& forall|i: int| #[trigger] moved_at(call.history(), journal@, i) <==> i == last
            &&& journal@.now().is_ended(me())
            &&& now.queued_request is None
            &&& before.queued_request is None ==> now.queued_response is None
            &&& now.waiting_client_response_waker == before.waiting_client_response_waker
            &&& now.waiting_server_waker == before.waiting_server_waker
            &&& if before.queued_request is Some || before.queued_response is Some {
                &&& !now.client_busy
                &&& !now.client_abandoned
                &&& now.waiting_client_slot_waker is None
                &&& journal@.woken == call.history().woken + held(before.waiting_client_slot_waker)
            } else {
                &&& now.client_abandoned
                &&& now.client_busy == before.client_busy
                &&& now.waiting_client_slot_waker == before.waiting_client_slot_waker
                &&& journal@.woken == call.history().woken
            }
        },
{
    if call.stage() is InFlight {
        lemma_one_move(call.cell().initial(), call.history(), journal@, Move::Cancel);
    }
}

/// To start a call is to do nothing yet: no move, no wake. The call has the request that it was
/// started with.
pub proof fn law_started_call<'a, M, Req, Resp>(
    service: &'a RpcService<M, Req, Resp>,
    req: Req,
    call: RequestCall<'a, M, Req, Resp>,
)
    requires
        call_ensures(RpcService::<M, Req, Resp>::request, (service, req), call),
    ensures
        call.wf(),
        call.cell() == service.cell(),
        call.stage() == (RequestStage::Waiting { request: req }),
        call.request() == req,
        call.history().events.len() == 0,
        call.history().woken.len() == 0,
{
}

// ---- The server ----

/// To start to wait for a request is to do nothing yet: no move, no wake.
pub proof fn law_started_wait<'a, M, Req, Resp>(
    service: &'a RpcService<M, Req, Resp>,
    call: ServeCall<'a, M, Req, Resp>,
)
    requires
        call_ensures(RpcService::<M, Req, Resp>::serve, (service,), call),
    ensures
        call.wf(),
        !call.finished(),
        call.cell() == service.cell(),
        call.history().events.len() == 0,
        call.history().woken.len() == 0,
{
}

/// A wait for a request gives the one that is queued, with the duty to finish it, and is over. If
/// none is queued, it goes on, and a clone of the waker is registered. Nothing else changes, and
/// nobody is woken.
pub proof fn law_polled_wait<'a, M: RawMutex, Req, Resp>(
    call: &mut ServeCall<'a, M, Req, Resp>,
    waker: &Waker,
    served: Option<(Req, ServedRequest<'a, M, Req, Resp>)>,
)
    requires
        old(call).wf(),
        !old(call).finished(),
        call_ensures(ServeCall::<'a, M, Req, Resp>::poll, (call, waker), served),
    ensures
        final(call).wf(),
        served is Some <==> final(call).finished(),
        served matches Some((_, handle)) ==> handle.wf() && handle.cell() == old(call).cell(),
        served is None ==> final(call).cell() == old(call).cell(),
        ({
            let earlier = old(call).history();
            let later = match served {
                Some((_, handle)) => handle.history(),
                None => final(call).history(),
            };
            let before = later.before();
            let now = later.now().state;
            &&& later.goes_on_from(earlier)
            &&& forall|i: int| #[trigger]
                moved_at(earlier, later, i) <==> i == later.events.len() - 1
            &&& later.woken == earlier.woken
            &&& match served {
                Some((request, _)) => {
                    &&& before.queued_request == Some(request)
                    &&& now.waiting_server_waker == before.waiting_server_waker
                },
                None => {
                    &&& before.queued_request is None
                    &&& now.waiting_server_waker matches Some(left) && cloned(*waker, left)
                },
            }
            &&& now.queued_request is None
            &&& now.queued_response == before.queued_response
            &&& now.client_busy == before.client_busy
            &&& now.client_abandoned == before.client_abandoned
            &&& now.waiting_client_slot_waker == before.waiting_client_slot_waker
            &&& now.waiting_client_response_waker == before.waiting_client_response_waker
        }),
{
    let start = old(call).cell().initial();
    let earlier = old(call).history();
    let later = match served {
        Some((_, handle)) => handle.history(),
        None => final(call).history(),
    };
    let taken = match served {
        Some((request, _)) => Some(request),
        None => None,
    };
    let left = choose|left: Waker| #[trigger]
        cloned(*waker, left) && later.extends(
            earlier,
            start,
            seq![Move::PollRequest { waker: left, taken }],
        );
    lemma_one_move(start, earlier, later, Move::PollRequest { waker: left, taken });
}

/// The request that a wait on a new service gives is that of the call that has the slot, and the
/// server is to complete that call.
pub proof fn law_served_request_is_of_the_call<'a, M: RawMutex, Req, Resp>(
    call: &mut ServeCall<'a, M, Req, Resp>,
    waker: &Waker,
    request: Req,
    handle: ServedRequest<'a, M, Req, Resp>,
)
    requires
        old(call).wf(),
        !old(call).finished(),
        old(call).cell().initial() == State::<Req, Resp>::empty(),
        call_ensures(
            ServeCall::<'a, M, Req, Resp>::poll,
            (call, waker),
            Some((request, handle)),
        ),
    ensures
        ({
            let trace = handle.history().trace;
            let found = trace[trace.len() - 2];
            let client = handle.history().now().handles[me()];
            &&& found.is_in_flight(client)
            &&& found.request_of(client) == request
            &&& !found.results.contains_key(client)
        }),
{
    let start = old(call).cell().initial();
    let earlier = old(call).history();
    let later = handle.history();
    let left = choose|left: Waker| #[trigger]
        cloned(*waker, left) && later.extends(
            earlier,
            start,
            seq![Move::PollRequest { waker: left, taken: Some(request) }],
        );
    lemma_one_move(start, earlier, later, Move::PollRequest { waker: left, taken: Some(request) });
    let i = later.events.len() - 1;
    law_execution_is_coherent(later.trace, later.events, i);
    law_server_gets_the_request(later.trace[i], me(), left, Some(request), later.trace[i + 1]);
}

/// A server that responds completes its call once, with its response. A client that is there finds
/// it queued and is woken. If it has gone, nothing is queued, the slot is free, and the client that
/// waits for it is woken. Nothing else changes, and nobody else is woken.
pub proof fn law_responded<'a, M: RawMutex, Req, Resp>(
    served: ServedRequest<'a, M, Req, Resp>,
    resp: Resp,
    journal: Journal<M, Req, Resp>,
)
    requires
        served.wf(),
        call_ensures(ServedRequest::<'a, M, Req, Resp>::respond, (served, resp), journal),
    ensures
        journal.cell() == served.cell(),
        ({
            let earlier = served.history();
            let later = journal@;
            let before = later.before();
            let now = later.now().state;
            let result: Result<Resp, RequestDroppedError> = Ok(resp);
            &&& later.goes_on_from(earlier)
            &&& forall|i: int| #[trigger]
                moved_at(earlier, later, i) <==> i == later.events.len() - 1
            &&& !later.now().handles.contains_key(me())
            &&& later.now().results[earlier.now().handles[me()]] == result
            &&& !now.client_abandoned
            &&& now.queued_request == before.queued_request
            &&& now.waiting_server_waker == before.waiting_server_waker
            &&& if before.client_abandoned {
                &&& now.queued_response == before.queued_response
                &&& !now.client_busy
                &&& now.waiting_client_slot_waker is None
                &&& now.waiting_client_response_waker == before.waiting_client_response_waker
                &&& later.woken == earlier.woken + held(before.waiting_client_slot_waker)
            } else {
                &&& now.queued_response == Some(result)
                &&& now.client_busy == before.client_busy
                &&& now.waiting_client_slot_waker == before.waiting_client_slot_waker
                &&& now.waiting_client_response_waker is None
                &&& later.woken == earlier.woken + held(before.waiting_client_response_waker)
            }
        }),
{
    lemma_completed(served, Ok(resp), journal);
}

/// A server that gives up completes its call once, with an error. A client that is there finds it
/// queued and is woken. If it has gone, nothing is queued, the slot is free, and the client that
/// waits for it is woken. Nothing else changes, and nobody else is woken.
pub proof fn law_abandoned<'a, M: RawMutex, Req, Resp>(
    served: ServedRequest<'a, M, Req, Resp>,
    journal: Journal<M, Req, Resp>,
)
    requires
        served.wf(),
        call_ensures(ServedRequest::<'a, M, Req, Resp>::abandon, (served,), journal),
    ensures
        journal.cell() == served.cell(),
        ({
            let earlier = served.history();
            let later = journal@;
            let before = later.before();
            let now = later.now().state;
            let result: Result<Resp, RequestDroppedError> = Err(RequestDroppedError);
            &&& later.goes_on_from(earlier)
            &&& forall|i: int| #[trigger]
                moved_at(earlier, later, i) <==> i == later.events.len() - 1
            &&& !later.now().handles.contains_key(me())
            &&& later.now().results[earlier.now().handles[me()]] == result
            &&& !now.client_abandoned
            &&& now.queued_request == before.queued_request
            &&& now.waiting_server_waker == before.waiting_server_waker
            &&& if before.client_abandoned {
                &&& now.queued_response == before.queued_response
                &&& !now.client_busy
                &&& now.waiting_client_slot_waker is None
                &&& now.waiting_client_response_waker == before.waiting_client_response_waker
                &&& later.woken == earlier.woken + held(before.waiting_client_slot_waker)
            } else {
                &&& now.queued_response == Some(result)
                &&& now.client_busy == before.client_busy
                &&& now.waiting_client_slot_waker == before.waiting_client_slot_waker
                &&& now.waiting_client_response_waker is None
                &&& later.woken == earlier.woken + held(before.waiting_client_response_waker)
            }
        }),
{
    lemma_completed(served, Err(RequestDroppedError), journal);
}

proof fn lemma_completed<'a, M, Req, Resp>(
    served: ServedRequest<'a, M, Req, Resp>,
    result: Result<Resp, RequestDroppedError>,
    journal: Journal<M, Req, Resp>,
)
    requires
        served.wf(),
        served.completed_with(result, journal),
    ensures
        ({
            let earlier = served.history();
            let later = journal@;
            let before = later.before();
            let now = later.now().state;
            &&& later.goes_on_from(earlier)
            &&& forall|i: int| #[trigger]
                moved_at(earlier, later, i) <==> i == later.events.len() - 1
            &&& !later.now().handles.contains_key(me())
            &&& later.now().results[earlier.now().handles[me()]] == result
            &&& !now.client_abandoned
            &&& now.queued_request == before.queued_request
            &&& now.waiting_server_waker == before.waiting_server_waker
            &&& if before.client_abandoned {
                &&& now.queued_response == before.queued_response
                &&& !now.client_busy
                &&& now.waiting_client_slot_waker is None
                &&& now.waiting_client_response_waker == before.waiting_client_response_waker
                &&& later.woken == earlier.woken + held(before.waiting_client_slot_waker)
            } else {
                &&& now.queued_response == Some(result)
                &&& now.client_busy == before.client_busy
                &&& now.waiting_client_slot_waker == before.waiting_client_slot_waker
                &&& now.waiting_client_response_waker is None
                &&& later.woken == earlier.woken + held(before.waiting_client_response_waker)
            }
        }),
{
    let earlier = served.history();
    let later = journal@;
    lemma_one_move(served.cell().initial(), earlier, later, Move::Complete { result });
    let i = later.events.len() - 1;
    lemma_handle_stays(served.cell().initial(), earlier, later, i);
}

/// What others do leaves a server with the call that it is to complete.
proof fn lemma_handle_stays<Req, Resp>(
    start: State<Req, Resp>,
    earlier: History<Req, Resp>,
    later: History<Req, Resp>,
    n: int,
)
    requires
        earlier.settled(start),
        later.settled(start),
        later.goes_on_from(earlier),
        earlier.events.len() <= n < later.events.len(),
        forall|i: int| earlier.events.len() <= i < n ==> (#[trigger] later.events[i]).by != me(),
        earlier.now().handles.contains_key(me()),
    ensures
        later.trace[n].handles.contains_key(me()),
        later.trace[n].handles[me()] == earlier.now().handles[me()],
    decreases n,
{
    if n > earlier.events.len() {
        lemma_handle_stays(start, earlier, later, n - 1);
        assert(next(later.trace[n - 1], later.events[n - 1], later.trace[n]));
    }
}

// ---- The service ----

/// A new service is made with the slot free, nothing queued and nobody waiting.
pub proof fn law_new_service<M: RawMutex, Req, Resp>(service: RpcService<M, Req, Resp>)
    requires
        call_ensures(RpcService::<M, Req, Resp>::new, (), service) || call_ensures(
            RpcService::<M, Req, Resp>::default,
            (),
            service,
        ),
    ensures
        ({
            let initial = service.cell().initial();
            &&& !initial.client_busy
            &&& !initial.client_abandoned
            &&& initial.queued_request is None
            &&& initial.queued_response is None
            &&& initial.waiting_client_slot_waker is None
            &&& initial.waiting_client_response_waker is None
            &&& initial.waiting_server_waker is None
        }),
{
}

} // verus!

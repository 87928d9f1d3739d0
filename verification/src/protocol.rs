//! A service together with all its users.
//!
//! The users make moves on the shared state, one at a time and in any order. Each keeps to its
//! part: a client submits after it got the slot, and a server completes what it took.
use crate::state::{step, woken, Move, RequestDroppedError, State};
use core::task::Waker;
use vstd::prelude::*;

verus! {

/// How far a client has come that has got the slot.
pub enum Progress<Req> {
    /// It is about to queue its request.
    Holding,
    /// It has queued its request and waits for the response.
    InFlight { request: Req },
    /// It has its response, or has gone away.
    Ended { request: Req },
}

/// A service and its users. Users are told apart by numbers.
pub struct System<Req, Resp> {
    /// What the users share.
    pub state: State<Req, Resp>,
    /// The calls of the clients that ever got the slot.
    pub calls: Map<int, Progress<Req>>,
    /// The call that queued a request last.
    pub submitted_by: Option<int>,
    /// The servers that have a request to complete, each with the call that it came from.
    pub handles: Map<int, int>,
    /// With what the server completed a call.
    pub results: Map<int, Result<Resp, RequestDroppedError>>,
}

/// A move, and the user who makes it.
pub struct Event<Req, Resp> {
    pub by: int,
    pub made: Move<Req, Resp>,
}

impl<Req, Resp> System<Req, Resp> {
    /// A service in `state` that has had no users yet.
    pub open spec fn starting(state: State<Req, Resp>) -> Self {
        System {
            state,
            calls: Map::empty(),
            submitted_by: None,
            handles: Map::empty(),
            results: Map::empty(),
        }
    }

    /// The call `call` has the slot, and its request is not queued yet.
    pub open spec fn is_holding(self, call: int) -> bool {
        self.calls.contains_key(call) && self.calls[call] is Holding
    }

    /// The call `call` has queued its request, and its client waits for the response.
    pub open spec fn is_in_flight(self, call: int) -> bool {
        self.calls.contains_key(call) && self.calls[call] is InFlight
    }

    /// The call `call` got the slot once, and has ended.
    pub open spec fn is_ended(self, call: int) -> bool {
        self.calls.contains_key(call) && self.calls[call] is Ended
    }

    /// The call `call` has the slot.
    pub open spec fn has_slot(self, call: int) -> bool {
        self.is_holding(call) || self.is_in_flight(call)
    }

    /// The request of a call in flight.
    pub open spec fn request_of(self, call: int) -> Req {
        self.calls[call]->InFlight_request
    }

    /// The same system, with the call `call` at `progress`.
    pub open spec fn with_call(self, call: int, progress: Progress<Req>) -> Self {
        System { calls: self.calls.insert(call, progress), ..self }
    }
}

/// The user `by` is at the point where it can make the move `made`.
pub open spec fn enabled<Req, Resp>(
    pre: System<Req, Resp>,
    by: int,
    made: Move<Req, Resp>,
) -> bool {
    match made {
        Move::PollSlot { .. } => !pre.calls.contains_key(by),
        Move::Submit { .. } => pre.is_holding(by),
        Move::PollResponse { .. } => pre.is_in_flight(by),
        Move::Cancel => pre.is_in_flight(by),
        Move::PollRequest { .. } => !pre.handles.contains_key(by),
        Move::Complete { .. } => pre.handles.contains_key(by),
    }
}

/// The users of `pre` after `event`.
pub open spec fn users_after<Req, Resp>(
    pre: System<Req, Resp>,
    event: Event<Req, Resp>,
) -> System<Req, Resp> {
    let by = event.by;
    match event.made {
        Move::PollSlot { answer, .. } => if answer is Acquired {
            pre.with_call(by, Progress::Holding)
        } else {
            pre
        },
        Move::Submit { request } => System {
            submitted_by: Some(by),
            ..pre.with_call(by, Progress::InFlight { request })
        },
        Move::PollResponse { response, .. } => if response is Some {
            pre.with_call(by, Progress::Ended { request: pre.request_of(by) })
        } else {
            pre
        },
        Move::Cancel => pre.with_call(by, Progress::Ended { request: pre.request_of(by) }),
        Move::PollRequest { taken, .. } => if taken is Some {
            System { handles: pre.handles.insert(by, pre.submitted_by->0), ..pre }
        } else {
            pre
        },
        Move::Complete { result } => System {
            handles: pre.handles.remove(by),
            results: pre.results.insert(pre.handles[by], result),
            ..pre
        },
    }
}

/// `event` leads from `pre` to `post`.
pub open spec fn next<Req, Resp>(
    pre: System<Req, Resp>,
    event: Event<Req, Resp>,
    post: System<Req, Resp>,
) -> bool {
    &&& enabled(pre, event.by, event.made)
    &&& step(pre.state, event.made, post.state)
    &&& post == (System { state: post.state, ..users_after(pre, event) })
}

/// `trace` is what becomes of a service in the state `start` when `events` happen one after the
/// other.
pub open spec fn execution<Req, Resp>(
    start: State<Req, Resp>,
    trace: Seq<System<Req, Resp>>,
    events: Seq<Event<Req, Resp>>,
) -> bool {
    &&& trace.len() == events.len() + 1
    &&& trace[0] == System::starting(start)
    &&& forall|i: int| 0 <= i < events.len() ==> next(trace[i], #[trigger] events[i], trace[i + 1])
}

/// The moves that the user `by` makes in `events`, in order.
pub open spec fn moves_by<Req, Resp>(events: Seq<Event<Req, Resp>>, by: int) -> Seq<Move<Req, Resp>>
    decreases events.len(),
{
    if events.len() == 0 {
        Seq::empty()
    } else if events.last().by == by {
        moves_by(events.drop_last(), by).push(events.last().made)
    } else {
        moves_by(events.drop_last(), by)
    }
}

/// The wakers that the moves of the user `by` in `events` wake, in order.
pub open spec fn wakes_by<Req, Resp>(
    trace: Seq<System<Req, Resp>>,
    events: Seq<Event<Req, Resp>>,
    by: int,
) -> Seq<Waker>
    decreases events.len(),
{
    if events.len() == 0 {
        Seq::empty()
    } else {
        let before = wakes_by(trace, events.drop_last(), by);
        match woken(trace[events.len() - 1].state, events.last().made) {
            Some(waker) if events.last().by == by => before.push(waker),
            _ => before,
        }
    }
}

/// The situations that a service can be in.
pub enum Phase {
    /// The slot is free.
    Idle,
    /// A client has the slot and is about to queue its request.
    Claimed { call: int },
    /// The request is queued.
    Queued { call: int },
    /// A server has the request.
    Serving { call: int, server: int },
    /// The response is queued.
    Answered { call: int },
    /// A server has the request of a client that has gone away.
    Abandoned { call: int, server: int },
}

impl<Req, Resp> System<Req, Resp> {
    /// The calls that have the slot are those that `holder` names.
    pub open spec fn slot_is_of(self, holder: Option<int>) -> bool {
        forall|call: int| #[trigger] self.has_slot(call) <==> holder == Some(call)
    }

    /// Only calls whose request was queued have a result.
    pub open spec fn results_are_of_submitted(self) -> bool {
        forall|call: int| #[trigger]
            self.results.contains_key(call) ==> self.is_in_flight(call) || self.is_ended(call)
    }

    /// The parts of the system fit together as `phase` says.
    pub open spec fn in_phase(self, phase: Phase) -> bool {
        &&& self.state.no_waker_overdue()
        &&& self.results_are_of_submitted()
        &&& match phase {
            Phase::Idle => {
                &&& self.slot_is_of(None)
                &&& !self.state.client_busy && !self.state.client_abandoned
                &&& self.state.queued_request is None
                &&& self.state.queued_response is None
                &&& self.handles == Map::<int, int>::empty()
            },
            Phase::Claimed { call } => {
                &&& self.slot_is_of(Some(call))
                &&& self.is_holding(call)
                &&& self.state.client_busy && !self.state.client_abandoned
                &&& self.state.queued_request is None
                &&& self.state.queued_response is None
                &&& self.handles == Map::<int, int>::empty()
            },
            Phase::Queued { call } => {
                &&& self.slot_is_of(Some(call))
                &&& self.is_in_flight(call)
                &&& self.state.client_busy && !self.state.client_abandoned
                &&& self.state.queued_request == Some(self.request_of(call))
                &&& self.submitted_by == Some(call)
                &&& self.state.queued_response is None
                &&& self.handles == Map::<int, int>::empty()
                &&& !self.results.contains_key(call)
            },
            Phase::Serving { call, server } => {
                &&& self.slot_is_of(Some(call))
                &&& self.is_in_flight(call)
                &&& self.state.client_busy && !self.state.client_abandoned
                &&& self.state.queued_request is None
                &&& self.state.queued_response is None
                &&& self.handles == Map::<int, int>::empty().insert(server, call)
                &&& !self.results.contains_key(call)
            },
            Phase::Answered { call } => {
                &&& self.slot_is_of(Some(call))
                &&& self.is_in_flight(call)
                &&& self.state.client_busy && !self.state.client_abandoned
                &&& self.state.queued_request is None
                &&& self.results.contains_key(call)
                &&& self.state.queued_response == Some(self.results[call])
                &&& self.handles == Map::<int, int>::empty()
            },
            Phase::Abandoned { call, server } => {
                &&& self.slot_is_of(None)
                &&& self.is_ended(call)
                &&& self.state.client_busy && self.state.client_abandoned
                &&& self.state.queued_request is None
                &&& self.state.queued_response is None
                &&& self.handles == Map::<int, int>::empty().insert(server, call)
                &&& !self.results.contains_key(call)
            },
        }
    }

    /// The parts of the system fit together.
    pub open spec fn coherent(self) -> bool {
        exists|phase: Phase| self.in_phase(phase)
    }
}

/// The phase that `event` leads to, from `phase`.
pub open spec fn phase_after<Req, Resp>(phase: Phase, event: Event<Req, Resp>) -> Phase {
    match event.made {
        Move::PollSlot { answer, .. } => if answer is Acquired {
            Phase::Claimed { call: event.by }
        } else {
            phase
        },
        Move::Submit { .. } => Phase::Queued { call: event.by },
        Move::PollResponse { response, .. } => if response is Some {
            Phase::Idle
        } else {
            phase
        },
        Move::Cancel => match phase {
            Phase::Serving { call, server } => Phase::Abandoned { call, server },
            _ => Phase::Idle,
        },
        Move::PollRequest { taken, .. } => match phase {
            Phase::Queued { call } if taken is Some => Phase::Serving { call, server: event.by },
            _ => phase,
        },
        Move::Complete { .. } => match phase {
            Phase::Serving { call, .. } => Phase::Answered { call },
            _ => Phase::Idle,
        },
    }
}

/// An event leads from one phase to the next as [`phase_after`] says.
pub proof fn lemma_next_phase<Req, Resp>(
    pre: System<Req, Resp>,
    phase: Phase,
    event: Event<Req, Resp>,
    post: System<Req, Resp>,
)
    requires
        pre.in_phase(phase),
        next(pre, event, post),
    ensures
        post.in_phase(phase_after(phase, event)),
{
    let by = event.by;
    match event.made {
        Move::PollSlot { answer, .. } => {
            assert forall|c: int|
                post.has_slot(c) == (pre.has_slot(c) || answer is Acquired && c == by) by {}
        },
        Move::Submit { .. } => {
            assert(pre.has_slot(by));
            assert forall|c: int| post.has_slot(c) == pre.has_slot(c) by {}
        },
        Move::PollResponse { response, .. } => {
            assert(pre.has_slot(by));
            assert forall|c: int|
                post.has_slot(c) == (pre.has_slot(c) && !(response is Some && c == by)) by {}
        },
        Move::Cancel => {
            assert(pre.has_slot(by));
            assert forall|c: int| post.has_slot(c) == (pre.has_slot(c) && c != by) by {}
        },
        Move::PollRequest { .. } => {
            assert forall|c: int| post.has_slot(c) == pre.has_slot(c) by {}
        },
        Move::Complete { .. } => {
            assert forall|c: int| post.has_slot(c) == pre.has_slot(c) by {}
            assert(post.handles =~= Map::empty());
        },
    }
}

} // verus!

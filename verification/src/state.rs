//! The state that the two sides of a service share, and the moves they make on it.
use crate::sync::{same_task, told_apart};
use core::task::Waker;
use vstd::prelude::*;

verus! {

/// The result of a call whose server let go of its [`ServedRequest`](crate::ServedRequest)
/// without answering.
///
/// This is no transport error: the handler gave up without a successful response.
#[derive(Debug, Clone, Copy, PartialEq, Eq, Structural)]
pub struct RequestDroppedError;

/// What a service remembers between two polls.
///
/// There is room for one call: one queued request, one queued response, and one waker for each
/// of the three things that a task can wait for.
pub struct State<Req, Resp> {
    /// The client slot is taken.
    pub client_busy: bool,
    /// The client that took the slot has gone while the server holds its request. The server's
    /// answer goes to nobody.
    pub client_abandoned: bool,
    /// Wakes a client that waits for the slot. A client that finds another task here takes its
    /// place and wakes it, so that it asks again.
    pub waiting_client_slot_waker: Option<Waker>,
    /// Wakes the client that waits for its response.
    pub waiting_client_response_waker: Option<Waker>,
    /// Wakes a server that waits for a request. A server that finds another one here takes its
    /// place: a service is meant for one server task.
    pub waiting_server_waker: Option<Waker>,
    /// A request that no server has taken yet.
    pub queued_request: Option<Req>,
    /// A response that its client has not taken yet.
    pub queued_response: Option<Result<Resp, RequestDroppedError>>,
}

/// What a client gets that asks for the slot.
pub enum SlotAnswer {
    /// It has the slot.
    Acquired,
    /// The slot is taken. Its waker is left behind, in place of that of another task if there was
    /// one.
    Registered,
    /// The slot is taken. Its waker is left behind, in place of an earlier one of the same task.
    Renewed,
}

/// One access to the state, with what the accessing task hands in and what it gets out.
///
/// The tasks that may have to wait hand in a waker to be left behind.
pub enum Move<Req, Resp> {
    /// A client asks for the slot.
    PollSlot { waker: Waker, answer: SlotAnswer },
    /// The client that has the slot queues its request.
    Submit { request: Req },
    /// The client asks for its response.
    PollResponse { waker: Waker, response: Option<Result<Resp, RequestDroppedError>> },
    /// The client goes away before it has seen a response.
    Cancel,
    /// A server asks for a request.
    PollRequest { waker: Waker, taken: Option<Req> },
    /// The server is done with the request that it took.
    Complete { result: Result<Resp, RequestDroppedError> },
}

/// What nobody needs after a move. It is let go of only when the state is free for others again,
/// as it may be that letting go of it needs the state.
pub struct Discarded<Req, Resp> {
    pub waker: Option<Waker>,
    pub request: Option<Req>,
    pub response: Option<Result<Resp, RequestDroppedError>>,
}

/// What comes out of a move.
pub struct Applied<T, Req, Resp> {
    /// What the task that made the move gets.
    pub output: T,
    /// Whom to wake.
    pub to_wake: Option<Waker>,
    /// What to let go of.
    pub discarded: Discarded<Req, Resp>,
}

impl<Req, Resp> State<Req, Resp> {
    /// No call is under way and nobody waits.
    pub open spec fn empty() -> Self {
        State {
            client_busy: false,
            client_abandoned: false,
            waiting_client_slot_waker: None,
            waiting_client_response_waker: None,
            waiting_server_waker: None,
            queued_request: None,
            queued_response: None,
        }
    }

    /// The same state with the client slot given back and nobody registered for it.
    pub open spec fn released(self) -> Self {
        State {
            client_busy: false,
            client_abandoned: false,
            waiting_client_slot_waker: None,
            ..self
        }
    }

    /// No waker stands beside the thing that it is registered for: no slot waker while the slot
    /// is free, no server waker while a request is queued, and no response waker while a
    /// response is queued.
    pub open spec fn no_waker_overdue(self) -> bool {
        &&& !self.client_busy ==> self.waiting_client_slot_waker is None
        &&& self.queued_request is Some ==> self.waiting_server_waker is None
        &&& self.queued_response is Some ==> self.waiting_client_response_waker is None
    }
}

/// The move `made` leads from `pre` to `post`.
pub open spec fn step<Req, Resp>(
    pre: State<Req, Resp>,
    made: Move<Req, Resp>,
    post: State<Req, Resp>,
) -> bool {
    match made {
        // The slot goes to whoever asks while it is free. Others leave a waker.
        Move::PollSlot { waker, answer } => match answer {
            SlotAnswer::Acquired => {
                &&& !pre.client_busy
                &&& post == (State { client_busy: true, ..pre })
            },
            SlotAnswer::Registered => {
                &&& pre.client_busy
                &&& pre.waiting_client_slot_waker matches Some(registered) ==> told_apart(
                    registered,
                    waker,
                )
                &&& post == (State { waiting_client_slot_waker: Some(waker), ..pre })
            },
            SlotAnswer::Renewed => {
                &&& pre.client_busy
                &&& pre.waiting_client_slot_waker matches Some(registered) && same_task(
                    registered,
                    waker,
                )
                &&& post == (State { waiting_client_slot_waker: Some(waker), ..pre })
            },
        },
        Move::Submit { request } => post == (State {
            queued_request: Some(request),
            waiting_server_waker: None,
            ..pre
        }),
        // A queued response is handed over and ends the call. Without one the client leaves a
        // waker.
        Move::PollResponse { waker, response } => {
            &&& response == pre.queued_response
            &&& post == if response is Some {
                State {
                    client_busy: false,
                    waiting_client_slot_waker: None,
                    queued_response: None,
                    ..pre
                }
            } else {
                State { waiting_client_response_waker: Some(waker), ..pre }
            }
        },
        // What is still queued is taken away and the slot is free. If the server has the
        // request, the slot stays taken until the server is done.
        Move::Cancel => post == if pre.queued_request is Some {
            State { queued_request: None, ..pre.released() }
        } else if pre.queued_response is Some {
            State { queued_response: None, ..pre.released() }
        } else {
            State { client_abandoned: true, ..pre }
        },
        // A queued request is handed over. Without one the server leaves a waker.
        Move::PollRequest { waker, taken } => {
            &&& taken == pre.queued_request
            &&& post == if taken is Some {
                State { queued_request: None, ..pre }
            } else {
                State { waiting_server_waker: Some(waker), ..pre }
            }
        },
        // The result is queued for the client, unless the client has gone.
        Move::Complete { result } => post == if pre.client_abandoned {
            pre.released()
        } else {
            State {
                queued_response: Some(result),
                waiting_client_response_waker: None,
                ..pre
            }
        },
    }
}

/// Whom the move `made` wakes in `pre`.
pub open spec fn woken<Req, Resp>(pre: State<Req, Resp>, made: Move<Req, Resp>) -> Option<Waker> {
    match made {
        Move::PollSlot { answer, .. } => if answer is Registered {
            pre.waiting_client_slot_waker
        } else {
            None
        },
        Move::Submit { .. } => pre.waiting_server_waker,
        Move::PollResponse { .. } => if pre.queued_response is Some {
            pre.waiting_client_slot_waker
        } else {
            None
        },
        Move::Cancel => if pre.queued_request is Some || pre.queued_response is Some {
            pre.waiting_client_slot_waker
        } else {
            None
        },
        Move::PollRequest { .. } => None,
        Move::Complete { .. } => if pre.client_abandoned {
            pre.waiting_client_slot_waker
        } else {
            pre.waiting_client_response_waker
        },
    }
}

/// What nobody needs after the move `made` in `pre`: a waker that was not left behind or that had
/// to make room, and a request or a response that was taken away, made room, or came too late.
pub open spec fn discarded<Req, Resp>(
    pre: State<Req, Resp>,
    made: Move<Req, Resp>,
) -> Discarded<Req, Resp> {
    match made {
        Move::PollSlot { waker, answer } => Discarded {
            waker: match answer {
                SlotAnswer::Acquired => Some(waker),
                SlotAnswer::Registered => None,
                SlotAnswer::Renewed => pre.waiting_client_slot_waker,
            },
            request: None,
            response: None,
        },
        Move::Submit { .. } => Discarded {
            waker: None,
            request: pre.queued_request,
            response: None,
        },
        Move::PollResponse { waker, response } => Discarded {
            waker: if response is Some {
                Some(waker)
            } else {
                pre.waiting_client_response_waker
            },
            request: None,
            response: None,
        },
        Move::Cancel => Discarded {
            waker: None,
            request: pre.queued_request,
            response: if pre.queued_request is Some {
                None
            } else {
                pre.queued_response
            },
        },
        Move::PollRequest { waker, taken } => Discarded {
            waker: if taken is Some {
                Some(waker)
            } else {
                pre.waiting_server_waker
            },
            request: None,
            response: None,
        },
        Move::Complete { result } => Discarded {
            waker: None,
            request: None,
            response: if pre.client_abandoned {
                Some(result)
            } else {
                pre.queued_response
            },
        },
    }
}

impl<T, Req, Resp> Applied<T, Req, Resp> {
    /// Besides its output, this is what comes out of the move `made` in `pre`.
    pub open spec fn comes_of(self, pre: State<Req, Resp>, made: Move<Req, Resp>) -> bool {
        &&& self.to_wake == woken(pre, made)
        &&& self.discarded == discarded(pre, made)
    }
}

impl<Req, Resp> State<Req, Resp> {
    /// The state of a service that nobody has used yet.
    pub fn new() -> (state: Self)
        ensures
            state == Self::empty(),
    {
        State {
            client_busy: false,
            client_abandoned: false,
            waiting_client_slot_waker: None,
            waiting_client_response_waker: None,
            waiting_server_waker: None,
            queued_request: None,
            queued_response: None,
        }
    }

    /// Takes the client slot if it is free. Otherwise leaves `waker` to be woken when it is, in
    /// place of the client that waited before. If that is another task, it is to be woken now.
    pub fn poll_slot(&mut self, waker: Waker) -> (applied: Applied<SlotAnswer, Req, Resp>)
        ensures
            step(*old(self), (Move::PollSlot { waker, answer: applied.output }), *final(self)),
            applied.comes_of(*old(self), (Move::PollSlot { waker, answer: applied.output })),
    {
        if !self.client_busy {
            self.client_busy = true;
            return Applied {
                output: SlotAnswer::Acquired,
                to_wake: None,
                discarded: Discarded { waker: Some(waker), request: None, response: None },
            };
        }
        let displaced = self.waiting_client_slot_waker.take();
        let renewed = match &displaced {
            Some(registered) => registered.will_wake(&waker),
            None => false,
        };
        self.waiting_client_slot_waker = Some(waker);
        if renewed {
            return Applied {
                output: SlotAnswer::Renewed,
                to_wake: None,
                discarded: Discarded { waker: displaced, request: None, response: None },
            };
        }
        Applied {
            output: SlotAnswer::Registered,
            to_wake: displaced,
            discarded: Discarded { waker: None, request: None, response: None },
        }
    }

    /// Queues `request`. The server that waits for one is to be woken.
    pub fn submit(&mut self, request: Req) -> (applied: Applied<(), Req, Resp>)
        ensures
            step(*old(self), (Move::Submit { request }), *final(self)),
            applied.comes_of(*old(self), (Move::Submit { request })),
    {
        let displaced = self.queued_request.take();
        self.queued_request = Some(request);
        Applied {
            output: (),
            to_wake: self.waiting_server_waker.take(),
            discarded: Discarded { waker: None, request: displaced, response: None },
        }
    }

    /// Takes the queued response, which ends the call and frees the slot. The client that waits
    /// for the slot is then to be woken. Without a response, leaves `waker` to be woken when
    /// there is one.
    pub fn poll_response(&mut self, waker: Waker) -> (applied: Applied<
        Option<Result<Resp, RequestDroppedError>>,
        Req,
        Resp,
    >)
        ensures
            step(
                *old(self),
                (Move::PollResponse { waker, response: applied.output }),
                *final(self),
            ),
            applied.comes_of(
                *old(self),
                (Move::PollResponse { waker, response: applied.output }),
            ),
    {
        if let Some(response) = self.queued_response.take() {
            self.client_busy = false;
            return Applied {
                output: Some(response),
                to_wake: self.waiting_client_slot_waker.take(),
                discarded: Discarded { waker: Some(waker), request: None, response: None },
            };
        }
        let displaced = self.waiting_client_response_waker.take();
        self.waiting_client_response_waker = Some(waker);
        Applied {
            output: None,
            to_wake: None,
            discarded: Discarded { waker: displaced, request: None, response: None },
        }
    }

    /// Cleans up after a client that goes away while its call is under way. If that frees the
    /// slot, the client that waits for it is to be woken.
    pub fn cancel(&mut self) -> (applied: Applied<(), Req, Resp>)
        ensures
            step(*old(self), Move::Cancel, *final(self)),
            applied.comes_of(*old(self), Move::Cancel),
    {
        let request = self.queued_request.take();
        if request.is_some() {
            return Applied {
                output: (),
                to_wake: self.release_client_slot(),
                discarded: Discarded { waker: None, request, response: None },
            };
        }
        let response = self.queued_response.take();
        if response.is_some() {
            return Applied {
                output: (),
                to_wake: self.release_client_slot(),
                discarded: Discarded { waker: None, request: None, response },
            };
        }
        self.client_abandoned = true;
        Applied {
            output: (),
            to_wake: None,
            discarded: Discarded { waker: None, request: None, response: None },
        }
    }

    /// Takes the queued request. Without one, leaves `waker` to be woken when there is one.
    pub fn poll_request(&mut self, waker: Waker) -> (applied: Applied<Option<Req>, Req, Resp>)
        ensures
            step(
                *old(self),
                (Move::PollRequest { waker, taken: applied.output }),
                *final(self),
            ),
            applied.comes_of(*old(self), (Move::PollRequest { waker, taken: applied.output })),
    {
        let taken = self.queued_request.take();
        if taken.is_some() {
            return Applied {
                output: taken,
                to_wake: None,
                discarded: Discarded { waker: Some(waker), request: None, response: None },
            };
        }
        let displaced = self.waiting_server_waker.take();
        self.waiting_server_waker = Some(waker);
        Applied {
            output: None,
            to_wake: None,
            discarded: Discarded { waker: displaced, request: None, response: None },
        }
    }

    /// Queues `result` for the client, which is to be woken. If the client has gone, frees the
    /// slot, and the client that waits for it is to be woken.
    pub fn complete(&mut self, result: Result<Resp, RequestDroppedError>) -> (applied: Applied<
        (),
        Req,
        Resp,
    >)
        ensures
            step(*old(self), (Move::Complete { result }), *final(self)),
            applied.comes_of(*old(self), (Move::Complete { result })),
    {
        if self.client_abandoned {
            return Applied {
                output: (),
                to_wake: self.release_client_slot(),
                discarded: Discarded { waker: None, request: None, response: Some(result) },
            };
        }
        let displaced = self.queued_response.take();
        self.queued_response = Some(result);
        Applied {
            output: (),
            to_wake: self.waiting_client_response_waker.take(),
            discarded: Discarded { waker: None, request: None, response: displaced },
        }
    }

    /// Gives the client slot back. Returns the client that waits for it.
    fn release_client_slot(&mut self) -> (to_wake: Option<Waker>)
        ensures
            *final(self) == old(self).released(),
            to_wake == old(self).waiting_client_slot_waker,
    {
        self.client_abandoned = false;
        self.client_busy = false;
        self.waiting_client_slot_waker.take()
    }
}

} // verus!

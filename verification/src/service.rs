//! The service, and the calls on its two sides.
use crate::protocol::Progress;
use crate::session::lemma_extends_on;
use crate::state::{Applied, Move, RequestDroppedError, SlotAnswer, State};
use crate::sync::{me, History, Journal, Session, StateCell, Transition};
use core::task::Waker;
use embassy_sync::blocking_mutex::raw::RawMutex;
use vstd::prelude::*;

verus! {

struct PollSlot {
    waker: Waker,
}

impl<Req, Resp> Transition<Req, Resp> for PollSlot {
    type Output = SlotAnswer;

    closed spec fn as_move(self, answer: SlotAnswer) -> Move<Req, Resp> {
        Move::PollSlot { waker: self.waker, answer }
    }

    fn apply(self, state: &mut State<Req, Resp>) -> Applied<SlotAnswer, Req, Resp> {
        state.poll_slot(self.waker)
    }
}

struct Submit<Req> {
    request: Req,
}

impl<Req, Resp> Transition<Req, Resp> for Submit<Req> {
    type Output = ();

    closed spec fn as_move(self, _submitted: ()) -> Move<Req, Resp> {
        Move::Submit { request: self.request }
    }

    fn apply(self, state: &mut State<Req, Resp>) -> Applied<(), Req, Resp> {
        state.submit(self.request)
    }
}

struct PollResponse {
    waker: Waker,
}

impl<Req, Resp> Transition<Req, Resp> for PollResponse {
    type Output = Option<Result<Resp, RequestDroppedError>>;

    closed spec fn as_move(
        self,
        response: Option<Result<Resp, RequestDroppedError>>,
    ) -> Move<Req, Resp> {
        Move::PollResponse { waker: self.waker, response }
    }

    fn apply(self, state: &mut State<Req, Resp>) -> Applied<
        Option<Result<Resp, RequestDroppedError>>,
        Req,
        Resp,
    > {
        state.poll_response(self.waker)
    }
}

struct Cancel;

impl<Req, Resp> Transition<Req, Resp> for Cancel {
    type Output = ();

    closed spec fn as_move(self, _cancelled: ()) -> Move<Req, Resp> {
        Move::Cancel
    }

    fn apply(self, state: &mut State<Req, Resp>) -> Applied<(), Req, Resp> {
        state.cancel()
    }
}

struct PollRequest {
    waker: Waker,
}

impl<Req, Resp> Transition<Req, Resp> for PollRequest {
    type Output = Option<Req>;

    closed spec fn as_move(self, taken: Option<Req>) -> Move<Req, Resp> {
        Move::PollRequest { waker: self.waker, taken }
    }

    fn apply(self, state: &mut State<Req, Resp>) -> Applied<Option<Req>, Req, Resp> {
        state.poll_request(self.waker)
    }
}

struct Complete<Resp> {
    result: Result<Resp, RequestDroppedError>,
}

impl<Req, Resp> Transition<Req, Resp> for Complete<Resp> {
    type Output = ();

    closed spec fn as_move(self, _completed: ()) -> Move<Req, Resp> {
        Move::Complete { result: self.result }
    }

    fn apply(self, state: &mut State<Req, Resp>) -> Applied<(), Req, Resp> {
        state.complete(self.result)
    }
}

/// In-memory request and response between tasks.
///
/// This is no wire protocol. It connects a task that calls [`RpcService::request`] with a task
/// that calls [`RpcService::serve`], over a state that a mutex of the kind `M` protects.
///
/// - There is one call at a time: the state holds at most one request and one response.
/// - Several clients may call. The others wait until the call under way is finished. Clients that
///   wait at the same time wake each other now and then, so that none is forgotten.
/// - A client that goes away gives its slot back once its call is finished: at once if the server
///   has not taken the request yet, else when the server is done.
///
/// # Panics
///
/// [`RequestCall::poll`], [`RequestCall::cancel`], [`ServeCall::poll`], [`ServedRequest::respond`]
/// and [`ServedRequest::abandon`] lock the mutex, and panic where a mutex of the kind `M` may not
/// be locked. `ThreadModeRawMutex` may only be locked in thread mode, which with the `std` feature
/// of `embassy_sync` is on a thread named `main`.
#[verifier::reject_recursive_types(M)]
#[verifier::reject_recursive_types(Req)]
#[verifier::reject_recursive_types(Resp)]
pub struct RpcService<M, Req, Resp> {
    cell: StateCell<M, Req, Resp>,
}

/// How far a client has come with its call.
pub enum RequestStage<Req> {
    /// It waits for the slot, and still has its request.
    Waiting { request: Req },
    /// It has queued its request and waits for the response.
    InFlight,
    /// It has its response.
    Finished,
}

/// The client's side of one call.
#[verifier::reject_recursive_types(M)]
#[verifier::reject_recursive_types(Req)]
#[verifier::reject_recursive_types(Resp)]
pub struct RequestCall<'a, M, Req, Resp> {
    session: Session<'a, M, Req, Resp>,
    stage: RequestStage<Req>,
    request: Ghost<Req>,
}

/// A server that waits for a request.
#[verifier::reject_recursive_types(M)]
#[verifier::reject_recursive_types(Req)]
#[verifier::reject_recursive_types(Resp)]
pub struct ServeCall<'a, M, Req, Resp> {
    session: Option<Session<'a, M, Req, Resp>>,
}

/// The server's duty to finish one request that it took.
///
/// The request itself comes beside it. [`ServedRequest::respond`] finishes the call with a
/// response, and [`ServedRequest::abandon`] finishes it with [`RequestDroppedError`].
#[verifier::reject_recursive_types(M)]
#[verifier::reject_recursive_types(Req)]
#[verifier::reject_recursive_types(Resp)]
pub struct ServedRequest<'a, M, Req, Resp> {
    session: Session<'a, M, Req, Resp>,
}

// Nothing here asks that `M` can be locked, so nothing here can touch the state.
impl<M, Req, Resp> RpcService<M, Req, Resp> {
    /// The state and its lock.
    pub closed spec fn cell(self) -> StateCell<M, Req, Resp> {
        self.cell
    }

    /// Starts a call with `req`. Nothing happens until the call is polled.
    pub fn request(&self, req: Req) -> (call: RequestCall<'_, M, Req, Resp>)
        ensures
            call.wf(),
            call.cell() == self.cell(),
            call.stage() == (RequestStage::Waiting { request: req }),
            call.request() == req,
            call.history() == History::<Req, Resp>::fresh(self.cell().initial()),
    {
        RequestCall {
            session: self.cell.session(),
            request: Ghost(req),
            stage: RequestStage::Waiting { request: req },
        }
    }

    /// Starts to wait for a request. Nothing happens until the wait is polled.
    pub fn serve(&self) -> (call: ServeCall<'_, M, Req, Resp>)
        ensures
            call.wf(),
            !call.finished(),
            call.cell() == self.cell(),
            call.history() == History::<Req, Resp>::fresh(self.cell().initial()),
    {
        ServeCall { session: Some(self.cell.session()) }
    }
}

impl<M: RawMutex, Req, Resp> RpcService<M, Req, Resp> {
    /// Creates a service that nobody has used yet.
    pub fn new() -> (service: Self)
        ensures
            service.cell().initial() == State::<Req, Resp>::empty(),
    {
        RpcService { cell: StateCell::new(State::new()) }
    }

    /// The same as [`RpcService::new`].
    pub fn default() -> (service: Self)
        ensures
            service.cell().initial() == State::<Req, Resp>::empty(),
    {
        Self::new()
    }
}

/// The stage of a call that was polled for its response and got `response`.
pub open spec fn after_response<Req, Resp>(
    response: Option<Result<Resp, RequestDroppedError>>,
) -> RequestStage<Req> {
    if response is Some {
        RequestStage::Finished
    } else {
        RequestStage::InFlight
    }
}

impl<'a, M, Req, Resp> RequestCall<'a, M, Req, Resp> {
    /// The state that the call goes to.
    pub closed spec fn cell(self) -> StateCell<M, Req, Resp> {
        self.session.cell()
    }

    /// How far the call has come.
    pub closed spec fn stage(self) -> RequestStage<Req> {
        self.stage
    }

    /// The request that the call was started with.
    pub closed spec fn request(self) -> Req {
        self.request@
    }

    /// What has happened up to the last move of the call.
    pub closed spec fn history(self) -> History<Req, Resp> {
        self.session@
    }

    /// The call has got the slot, and has come to `progress` since.
    pub open spec fn has_come_to(self, progress: Progress<Req>) -> bool {
        let calls = self.history().now().calls;
        calls.contains_key(me()) && calls[me()] == progress
    }

    /// The call is where its moves have brought it, and has woken whom they wake.
    pub open spec fn wf(self) -> bool {
        &&& self.history().settled(self.cell().initial())
        &&& match self.stage() {
            RequestStage::Waiting { request } => {
                &&& request == self.request()
                &&& !self.history().now().calls.contains_key(me())
            },
            RequestStage::InFlight => self.has_come_to(
                Progress::InFlight { request: self.request() },
            ),
            RequestStage::Finished => self.has_come_to(
                Progress::Ended { request: self.request() },
            ),
        }
    }

    /// From `self` on, the call has made `moves` and no others, and come to `after`, at `stage`.
    pub open spec fn proceeds(
        self,
        moves: Seq<Move<Req, Resp>>,
        stage: RequestStage<Req>,
        after: Self,
    ) -> bool {
        &&& after.cell() == self.cell()
        &&& after.request() == self.request()
        &&& after.stage() == stage
        &&& after.history().extends(self.history(), self.cell().initial(), moves)
    }

    /// A poll with `waker` takes the call from `self` to `after` and gives `result`. Each move
    /// that may have to wait has a clone of `waker` of its own.
    pub open spec fn polled(
        self,
        waker: Waker,
        result: Option<Result<Resp, RequestDroppedError>>,
        after: Self,
    ) -> bool {
        match self.stage() {
            RequestStage::Waiting { request } => {
                // The slot is taken, so the call still waits for it,
                ||| result is None && exists|slot: Waker| #[trigger]
                    cloned(waker, slot) && {
                    ||| self.proceeds(
                        seq![Move::PollSlot { waker: slot, answer: SlotAnswer::Registered }],
                        self.stage(),
                        after,
                    )
                    ||| self.proceeds(
                        seq![Move::PollSlot { waker: slot, answer: SlotAnswer::Renewed }],
                        self.stage(),
                        after,
                    )
                }
                // or the call gets the slot, queues its request, and asks for the response.
                ||| exists|slot: Waker, response: Waker| #[trigger]
                    cloned(waker, slot) && #[trigger] cloned(waker, response) && self.proceeds(
                        seq![
                            Move::PollSlot { waker: slot, answer: SlotAnswer::Acquired },
                            Move::Submit { request },
                            Move::PollResponse { waker: response, response: result },
                        ],
                        after_response(result),
                        after,
                    )
            },
            RequestStage::InFlight => exists|response: Waker| #[trigger]
                cloned(waker, response) && self.proceeds(
                    seq![Move::PollResponse { waker: response, response: result }],
                    after_response(result),
                    after,
                ),
            RequestStage::Finished => false,
        }
    }
}

impl<'a, M: RawMutex, Req, Resp> RequestCall<'a, M, Req, Resp> {
    /// Asks for the client slot.
    fn acquire_client_slot(&mut self, waker: Waker) -> (answer: SlotAnswer)
        requires
            old(self).wf(),
            old(self).stage() is Waiting,
        ensures
            old(self).proceeds(
                seq![Move::PollSlot { waker, answer }],
                old(self).stage(),
                *final(self),
            ),
            if answer is Acquired {
                final(self).has_come_to(Progress::Holding)
            } else {
                final(self).wf()
            },
    {
        self.session.transact(PollSlot { waker })
    }

    /// Takes the call as far as it can go now. Gives the result when the call is finished.
    /// Otherwise `waker` is woken when it is worth polling again, or when another client comes to
    /// wait for the slot.
    ///
    /// A call is not polled again after it has given its result.
    pub fn poll(&mut self, waker: &Waker) -> (result: Option<Result<Resp, RequestDroppedError>>)
        requires
            old(self).wf(),
            old(self).stage() !is Finished,
        ensures
            final(self).wf(),
            old(self).polled(*waker, result, *final(self)),
    {
        let ghost start = self.session.cell().initial();
        let ghost first = self.session@;
        let ghost mut asked: Waker = *waker;
        let ghost mut moves: Seq<Move<Req, Resp>> = Seq::empty();
        if let RequestStage::Waiting { .. } = self.stage {
            let slot = waker.clone();
            assert(cloned(*waker, slot));
            match self.acquire_client_slot(slot) {
                SlotAnswer::Acquired => {},
                SlotAnswer::Registered | SlotAnswer::Renewed => {
                    return None;
                },
            }
            let ghost polled = seq![Move::PollSlot { waker: slot, answer: SlotAnswer::Acquired }];
            let ghost second = self.session@;
            let mut stage = RequestStage::Finished;
            core::mem::swap(&mut self.stage, &mut stage);
            if let RequestStage::Waiting { request } = stage {
                self.session.transact(Submit { request });
                proof {
                    let submitted = seq![Move::Submit { request }];
                    lemma_extends_on(first, second, self.session@, start, polled, submitted);
                    asked = slot;
                    moves = polled + submitted;
                }
            }
            self.stage = RequestStage::InFlight;
        }
        let ghost third = self.session@;
        let response = waker.clone();
        assert(cloned(*waker, response));
        let result = self.session.transact(PollResponse { waker: response });
        proof {
            let last = seq![Move::PollResponse { waker: response, response: result }];
            lemma_extends_on(first, third, self.session@, start, moves, last);
            if let RequestStage::Waiting { request } = old(self).stage() {
                assert(moves + last =~= seq![
                    Move::PollSlot { waker: asked, answer: SlotAnswer::Acquired },
                    Move::Submit { request },
                    Move::PollResponse { waker: response, response: result },
                ]);
            }
        }
        if result.is_some() {
            self.stage = RequestStage::Finished;
        }
        result
    }

    /// Gives the call up.
    ///
    /// A request that is still queued is removed and the slot is free again. If the server has
    /// taken it, the server goes on, its response goes to nobody, and the slot is free again when
    /// the server is done. A call that waits for the slot, or is finished, just ends.
    pub fn cancel(self) -> (journal: Journal<M, Req, Resp>)
        requires
            self.wf(),
        ensures
            journal.cell() == self.cell(),
            if self.stage() is InFlight {
                journal@.extends(self.history(), self.cell().initial(), seq![Move::Cancel])
            } else {
                journal@ == self.history()
            },
    {
        let mut session = self.session;
        if let RequestStage::InFlight = self.stage {
            session.transact(Cancel);
        }
        session.close()
    }
}

impl<'a, M, Req, Resp> ServeCall<'a, M, Req, Resp> {
    /// A request has come.
    pub closed spec fn finished(self) -> bool {
        self.session is None
    }

    /// The state whose requests are waited for, until one has come.
    pub closed spec fn cell(self) -> StateCell<M, Req, Resp> {
        self.session->0.cell()
    }

    /// What has happened up to the last move of the wait, until a request has come.
    pub closed spec fn history(self) -> History<Req, Resp> {
        self.session->0@
    }

    /// The wait is where its moves have brought it, and has woken whom they wake.
    pub open spec fn wf(self) -> bool {
        !self.finished() ==> {
            &&& self.history().settled(self.cell().initial())
            &&& !self.history().now().handles.contains_key(me())
        }
    }
}

impl<'a, M: RawMutex, Req, Resp> ServeCall<'a, M, Req, Resp> {
    /// Takes the queued request, with the duty to finish it. Without one, `waker` is woken when
    /// there is one.
    ///
    /// The wait is not polled again after it has given a request.
    pub fn poll(&mut self, waker: &Waker) -> (served: Option<
        (Req, ServedRequest<'a, M, Req, Resp>),
    >)
        requires
            old(self).wf(),
            !old(self).finished(),
        ensures
            final(self).wf(),
            final(self).finished() == (served is Some),
            match served {
                Some((request, handle)) => {
                    &&& handle.wf()
                    &&& handle.cell() == old(self).cell()
                    &&& exists|left: Waker| #[trigger]
                        cloned(*waker, left) && handle.history().extends(
                            old(self).history(),
                            old(self).cell().initial(),
                            seq![Move::PollRequest { waker: left, taken: Some(request) }],
                        )
                },
                None => {
                    &&& final(self).cell() == old(self).cell()
                    &&& exists|left: Waker| #[trigger]
                        cloned(*waker, left) && final(self).history().extends(
                            old(self).history(),
                            old(self).cell().initial(),
                            seq![Move::PollRequest { waker: left, taken: None }],
                        )
                },
            },
    {
        match self.session.take() {
            Some(session) => {
                let mut session = session;
                let left = waker.clone();
                assert(cloned(*waker, left));
                match session.transact(PollRequest { waker: left }) {
                    Some(request) => Some((request, ServedRequest { session })),
                    None => {
                        self.session = Some(session);
                        None
                    },
                }
            },
            None => None,
        }
    }
}

impl<'a, M, Req, Resp> ServedRequest<'a, M, Req, Resp> {
    /// The state that the request was taken from.
    pub closed spec fn cell(self) -> StateCell<M, Req, Resp> {
        self.session.cell()
    }

    /// What has happened up to the moment when the request was taken.
    pub closed spec fn history(self) -> History<Req, Resp> {
        self.session@
    }

    /// The server has a request to finish, and has woken whom its moves wake.
    pub open spec fn wf(self) -> bool {
        &&& self.history().settled(self.cell().initial())
        &&& self.history().now().handles.contains_key(me())
    }

    /// `journal` is what is left when the server has finished its request with `result`, once,
    /// and has done nothing else.
    pub open spec fn completed_with(
        self,
        result: Result<Resp, RequestDroppedError>,
        journal: Journal<M, Req, Resp>,
    ) -> bool {
        &&& journal.cell() == self.cell()
        &&& journal@.extends(
            self.history(),
            self.cell().initial(),
            seq![Move::Complete { result }],
        )
        &&& !journal@.now().handles.contains_key(me())
    }
}

impl<'a, M: RawMutex, Req, Resp> ServedRequest<'a, M, Req, Resp> {
    /// Finishes the call with `resp`, which the waiting client gets as `Ok(resp)`.
    pub fn respond(self, resp: Resp) -> (journal: Journal<M, Req, Resp>)
        requires
            self.wf(),
        ensures
            self.completed_with(Ok(resp), journal),
    {
        let mut session = self.session;
        session.transact(Complete { result: Ok(resp) });
        session.close()
    }

    /// Finishes the call without a response. The waiting client gets [`RequestDroppedError`].
    pub fn abandon(self) -> (journal: Journal<M, Req, Resp>)
        requires
            self.wf(),
        ensures
            self.completed_with(Err(RequestDroppedError), journal),
    {
        let mut session = self.session;
        session.transact(Complete { result: Err(RequestDroppedError) });
        session.close()
    }
}

} // verus!

//! The lock around the state, and the wakers in it.
//!
//! What a lock protects can change between any two accesses, so no contract can say what a
//! service holds at a given moment. What can be said is how the service has come to where a user
//! found it: a [`Session`] is one user's way to the state, and its [`History`] is all that has
//! happened up to that user's last move, in which the user's own moves are all there.
use crate::protocol::{enabled, execution, moves_by, wakes_by, Event, System};
use crate::state::{step, Applied, Move, State};
use core::cell::RefCell;
use core::task::Waker;
use embassy_sync::blocking_mutex::raw::RawMutex;
use embassy_sync::blocking_mutex::Mutex;
use vstd::prelude::*;

verus! {

/// `embassy_sync::blocking_mutex::Mutex`, as an opaque type.
#[verifier::external_type_specification]
#[verifier::external_body]
#[verifier::reject_recursive_types(R)]
#[verifier::reject_recursive_types(T)]
pub struct ExMutex<R, T: ?Sized>(Mutex<R, T>);

/// `core::cell::RefCell`, as an opaque type.
#[verifier::external_type_specification]
#[verifier::external_body]
#[verifier::reject_recursive_types(T)]
pub struct ExRefCell<T: ?Sized>(RefCell<T>);

/// `core::task::Waker`, as an opaque type.
#[verifier::external_type_specification]
#[verifier::external_body]
pub struct ExWaker(Waker);

/// `core::task::Waker::clone`. The clone wakes the same task, but need not be the same waker, so
/// nothing is promised of it but that it is a clone (`cloned`).
pub assume_specification[ <Waker as Clone>::clone ](waker: &Waker) -> (clone: Waker);

/// `core::task::Waker::will_wake`. It works on a best-effort basis: after `true` the two wakers
/// wake the same task, and after `false` they may or may not. So nothing is promised of what it
/// returns: [`same_task`] is that it returned `true`, and [`told_apart`] that it returned
/// `false`.
pub assume_specification[ Waker::will_wake ](waker: &Waker, other: &Waker) -> (same: bool);

/// `core::task::Waker::will_wake` said that `waker` and `other` wake the same task.
pub open spec fn same_task(waker: Waker, other: Waker) -> bool {
    call_ensures(Waker::will_wake, (&waker, &other), true)
}

/// `core::task::Waker::will_wake` did not say that `waker` and `other` wake the same task.
pub open spec fn told_apart(waker: Waker, other: Waker) -> bool {
    call_ensures(Waker::will_wake, (&waker, &other), false)
}

/// One access to the state, as a value.
pub(crate) trait Transition<Req, Resp>: Sized {
    /// What the accessing task gets out.
    type Output;

    /// The move that this is when it gives `output`.
    spec fn as_move(self, output: Self::Output) -> Move<Req, Resp>;

    /// Makes the move.
    fn apply(self, state: &mut State<Req, Resp>) -> (applied: Applied<Self::Output, Req, Resp>)
        ensures
            step(*old(state), self.as_move(applied.output), *final(state)),
            applied.comes_of(*old(state), self.as_move(applied.output)),
    ;
}

/// A state behind a mutex.
#[verifier::reject_recursive_types(M)]
#[verifier::reject_recursive_types(Req)]
#[verifier::reject_recursive_types(Resp)]
pub struct StateCell<M, Req, Resp> {
    state: Mutex<M, RefCell<State<Req, Resp>>>,
    initial: Ghost<State<Req, Resp>>,
}

/// What one user knows of a service: everything that happened up to its own last move, and whom
/// it has woken.
pub struct History<Req, Resp> {
    pub trace: Seq<System<Req, Resp>>,
    pub events: Seq<Event<Req, Resp>>,
    pub woken: Seq<Waker>,
}

/// The number of the user in its own history. Others have other numbers there.
pub open spec fn me() -> int {
    0
}

impl<Req, Resp> History<Req, Resp> {
    /// The history of a user of a service made with `start` that has made no move yet.
    pub open spec fn fresh(start: State<Req, Resp>) -> Self {
        History {
            trace: seq![System::starting(start)],
            events: Seq::empty(),
            woken: Seq::empty(),
        }
    }

    /// The service and its users after the last move.
    pub open spec fn now(self) -> System<Req, Resp> {
        self.trace.last()
    }

    /// The state in which the last move was made.
    pub open spec fn before(self) -> State<Req, Resp> {
        self.trace[self.trace.len() - 2].state
    }

    /// The moves that the user has made, all of them and in order.
    pub open spec fn moves(self) -> Seq<Move<Req, Resp>> {
        moves_by(self.events, me())
    }

    /// This is a history of a service made with `start`, and the user has woken exactly those
    /// that its moves wake.
    pub open spec fn settled(self, start: State<Req, Resp>) -> bool {
        &&& execution(start, self.trace, self.events)
        &&& self.woken == wakes_by(self.trace, self.events, me())
    }

    /// This history goes on from `earlier`.
    pub open spec fn goes_on_from(self, earlier: Self) -> bool {
        &&& earlier.trace.is_prefix_of(self.trace)
        &&& earlier.events.is_prefix_of(self.events)
    }

    /// From `earlier` on, others have made moves, and then the user has made the move `made`.
    pub open spec fn advanced_from(
        self,
        earlier: Self,
        start: State<Req, Resp>,
        made: Move<Req, Resp>,
    ) -> bool {
        &&& execution(start, self.trace, self.events)
        &&& self.goes_on_from(earlier)
        &&& self.events.len() > earlier.events.len()
        &&& forall|i: int|
            earlier.events.len() <= i < self.events.len() - 1 ==> (#[trigger] self.events[i]).by
                != me()
        &&& self.events.last() == (Event { by: me(), made })
        &&& self.woken == earlier.woken
    }
}

/// One user's way to the state in a cell.
#[verifier::reject_recursive_types(M)]
#[verifier::reject_recursive_types(Req)]
#[verifier::reject_recursive_types(Resp)]
pub struct Session<'a, M, Req, Resp> {
    cell: &'a StateCell<M, Req, Resp>,
    history: Ghost<History<Req, Resp>>,
}

/// What is left of a session that is over. It takes no room.
#[verifier::reject_recursive_types(M)]
#[verifier::reject_recursive_types(Req)]
#[verifier::reject_recursive_types(Resp)]
pub struct Journal<M, Req, Resp> {
    cell: Ghost<StateCell<M, Req, Resp>>,
    history: Ghost<History<Req, Resp>>,
}

impl<M, Req, Resp> StateCell<M, Req, Resp> {
    /// The state that the cell was made with.
    pub closed spec fn initial(self) -> State<Req, Resp> {
        self.initial@
    }

    /// The cell can be in `state`: its users can bring it there.
    pub open spec fn may_hold(self, state: State<Req, Resp>) -> bool {
        exists|trace: Seq<System<Req, Resp>>, events: Seq<Event<Req, Resp>>|
            #[trigger] execution(self.initial(), trace, events) && trace.last().state == state
    }

    /// Opens a way to the state for one more user.
    pub(crate) fn session(&self) -> (session: Session<'_, M, Req, Resp>)
        ensures
            session.cell() == *self,
            session@ == History::fresh(self.initial()),
    {
        Session { cell: self, history: Ghost(History::fresh(self.initial())) }
    }
}

impl<'a, M, Req, Resp> View for Session<'a, M, Req, Resp> {
    type V = History<Req, Resp>;

    closed spec fn view(&self) -> History<Req, Resp> {
        self.history@
    }
}

impl<M, Req, Resp> View for Journal<M, Req, Resp> {
    type V = History<Req, Resp>;

    closed spec fn view(&self) -> History<Req, Resp> {
        self.history@
    }
}

impl<M, Req, Resp> Journal<M, Req, Resp> {
    /// The cell that the session was on.
    pub closed spec fn cell(self) -> StateCell<M, Req, Resp> {
        self.cell@
    }
}

impl<'a, M, Req, Resp> Session<'a, M, Req, Resp> {
    /// The cell that this is a way to.
    pub closed spec fn cell(self) -> StateCell<M, Req, Resp> {
        *self.cell
    }

    /// Calls `core::task::Waker::wake`.
    ///
    /// Claims that `waker` is woken, and nobody else. What its task does then is left unsaid.
    #[verifier::external_body]
    pub(crate) fn wake(&mut self, waker: Waker)
        ensures
            final(self).cell() == old(self).cell(),
            final(self)@ == (History { woken: old(self)@.woken.push(waker), ..old(self)@ }),
    {
        waker.wake()
    }

    /// Ends the session.
    pub(crate) fn close(self) -> (journal: Journal<M, Req, Resp>)
        ensures
            journal.cell() == self.cell(),
            journal@ == self@,
    {
        Journal { cell: Ghost(*self.cell), history: self.history }
    }
}

impl<M: RawMutex, Req, Resp> StateCell<M, Req, Resp> {
    /// Calls `embassy_sync::blocking_mutex::Mutex::new`, on `state` in a `RefCell`.
    ///
    /// Claims that the new mutex protects `state`.
    #[verifier::external_body]
    pub(crate) fn new(state: State<Req, Resp>) -> (cell: Self)
        ensures
            cell.initial() == state,
    {
        StateCell { initial: Ghost(state), state: Mutex::new(RefCell::new(state)) }
    }
}

impl<'a, M: RawMutex, Req, Resp> Session<'a, M, Req, Resp> {
    /// Calls `embassy_sync::blocking_mutex::Mutex::lock` with a closure that applies
    /// `transition` to what the mutex protects.
    ///
    /// Claims that the transition is applied once, and that what comes of it is what comes back.
    /// The state it is applied to is the one that the moves before have left there: every access
    /// goes through this function, one at a time, and each user makes only moves that its own
    /// moves before allow. Which moves others have made is left unsaid.
    ///
    /// While the state is borrowed, values are moved and wakers are compared, and no waker is
    /// woken, cloned or let go of, so no access meets another one. A mutex that is bound to a
    /// context, such as `ThreadModeRawMutex`, panics elsewhere.
    #[verifier::external_body]
    pub(crate) fn lock<T: Transition<Req, Resp>>(&mut self, transition: T) -> (applied: Applied<
        T::Output,
        Req,
        Resp,
    >)
        requires
            old(self)@.settled(old(self).cell().initial()),
            forall|output: T::Output|
                enabled(old(self)@.now(), me(), #[trigger] transition.as_move(output)),
        ensures
            final(self).cell() == old(self).cell(),
            final(self)@.advanced_from(
                old(self)@,
                old(self).cell().initial(),
                transition.as_move(applied.output),
            ),
            applied.comes_of(final(self)@.before(), transition.as_move(applied.output)),
    {
        self.cell.state.lock(|state| transition.apply(&mut state.borrow_mut()))
    }
}

} // verus!

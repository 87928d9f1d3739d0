//! Moves in a session, and whom they wake.
use crate::protocol::{enabled, execution, moves_by, users_after, wakes_by, Event, System};
use crate::state::{step, woken, Applied, Move, State};
use crate::sync::{me, History, Session, Transition};
use core::task::Waker;
use embassy_sync::blocking_mutex::raw::RawMutex;
use vstd::prelude::*;

verus! {

/// The user `by` is at the same point in `a` and in `b`.
pub open spec fn same_point<Req, Resp>(
    a: System<Req, Resp>,
    b: System<Req, Resp>,
    by: int,
) -> bool {
    &&& a.calls.contains_key(by) == b.calls.contains_key(by)
    &&& a.calls.contains_key(by) ==> a.calls[by] == b.calls[by]
    &&& a.handles.contains_key(by) == b.handles.contains_key(by)
}

impl<Req, Resp> History<Req, Resp> {
    /// From `earlier` on, the user has made `moves` and no others, and has woken those that they
    /// wake and no others. The history ends with the last of `moves`.
    pub open spec fn extends(
        self,
        earlier: Self,
        start: State<Req, Resp>,
        moves: Seq<Move<Req, Resp>>,
    ) -> bool {
        &&& self.settled(start)
        &&& self.goes_on_from(earlier)
        &&& self.moves() == earlier.moves() + moves
        &&& if moves.len() == 0 {
            self == earlier
        } else {
            self.events.len() > 0 && self.events.last() == (Event {
                by: me(),
                made: moves.last(),
            })
        }
    }
}

/// Moves that follow on others extend a history by both.
pub proof fn lemma_extends_on<Req, Resp>(
    first: History<Req, Resp>,
    second: History<Req, Resp>,
    third: History<Req, Resp>,
    start: State<Req, Resp>,
    moves: Seq<Move<Req, Resp>>,
    more: Seq<Move<Req, Resp>>,
)
    requires
        second.extends(first, start, moves),
        third.extends(second, start, more),
    ensures
        third.extends(first, start, moves + more),
{
    assert(third.moves() =~= first.moves() + (moves + more));
}

/// The wakers that a user wakes do not depend on what comes later.
proof fn lemma_wakes_of_prefix<Req, Resp>(
    trace: Seq<System<Req, Resp>>,
    longer: Seq<System<Req, Resp>>,
    events: Seq<Event<Req, Resp>>,
    by: int,
)
    requires
        events.len() < trace.len(),
        trace.is_prefix_of(longer),
    ensures
        wakes_by(trace, events, by) == wakes_by(longer, events, by),
    decreases events.len(),
{
    if events.len() > 0 {
        lemma_wakes_of_prefix(trace, longer, events.drop_last(), by);
    }
}

/// What others do leaves a user where it is.
proof fn lemma_others<Req, Resp>(
    start: State<Req, Resp>,
    earlier: History<Req, Resp>,
    later: History<Req, Resp>,
    n: int,
)
    requires
        execution(start, later.trace, later.events),
        earlier.trace.len() == earlier.events.len() + 1,
        later.goes_on_from(earlier),
        earlier.events.len() <= n <= later.events.len(),
        forall|i: int| earlier.events.len() <= i < n ==> (#[trigger] later.events[i]).by != me(),
    ensures
        moves_by(later.events.take(n), me()) == earlier.moves(),
        wakes_by(later.trace, later.events.take(n), me()) == wakes_by(
            earlier.trace,
            earlier.events,
            me(),
        ),
        same_point(earlier.now(), later.trace[n], me()),
    decreases n,
{
    let events = later.events.take(n);
    if n == earlier.events.len() {
        lemma_wakes_of_prefix(earlier.trace, later.trace, events, me());
    } else {
        lemma_others(start, earlier, later, n - 1);
        assert(events.drop_last() =~= later.events.take(n - 1));
    }
}

/// What `thing` holds, as a sequence.
pub open spec fn held<T>(thing: Option<T>) -> Seq<T> {
    match thing {
        Some(value) => seq![value],
        None => Seq::empty(),
    }
}

/// The wakers that the events at `at` wake, in order.
pub open spec fn wakes_at<Req, Resp>(
    trace: Seq<System<Req, Resp>>,
    events: Seq<Event<Req, Resp>>,
    at: Seq<int>,
) -> Seq<Waker>
    decreases at.len(),
{
    if at.len() == 0 {
        Seq::empty()
    } else {
        wakes_at(trace, events, at.drop_last()) + held(
            woken(trace[at.last()].state, events[at.last()].made),
        )
    }
}

/// The user's own events from `earlier` on, before `n`.
proof fn lemma_own_events_before<Req, Resp>(
    start: State<Req, Resp>,
    earlier: History<Req, Resp>,
    later: History<Req, Resp>,
    n: int,
) -> (at: Seq<int>)
    requires
        earlier.settled(start),
        later.settled(start),
        later.goes_on_from(earlier),
        earlier.events.len() <= n <= later.events.len(),
    ensures
        forall|k: int| 0 <= k < at.len() ==> earlier.events.len() <= #[trigger] at[k] < n,
        forall|k: int| 0 <= k < at.len() ==> later.events[#[trigger] at[k]].by == me(),
        forall|k: int, l: int| 0 <= k < l < at.len() ==> #[trigger] at[k] < #[trigger] at[l],
        forall|i: int|
            earlier.events.len() <= i < n && (#[trigger] later.events[i]).by == me()
                ==> at.contains(i),
        moves_by(later.events.take(n), me()) == earlier.moves() + at.map_values(
            |i: int| later.events[i].made,
        ),
        wakes_by(later.trace, later.events.take(n), me()) == earlier.woken + wakes_at(
            later.trace,
            later.events,
            at,
        ),
    decreases n,
{
    let events = later.events.take(n);
    if n == earlier.events.len() {
        lemma_wakes_of_prefix(earlier.trace, later.trace, events, me());
        Seq::empty()
    } else {
        let before = lemma_own_events_before(start, earlier, later, n - 1);
        assert(events.drop_last() =~= later.events.take(n - 1));
        if later.events[n - 1].by == me() {
            let at = before.push(n - 1);
            assert(at.drop_last() =~= before);
            assert forall|i: int|
                earlier.events.len() <= i < n && (#[trigger] later.events[i]).by
                    == me() implies at.contains(i) by {
                if i == n - 1 {
                    assert(at[before.len() as int] == i);
                }
            }
            at
        } else {
            before
        }
    }
}

/// Where the user has made the moves `moves` by which `later` extends `earlier`. It has made no
/// others, and has woken whom they wake.
pub proof fn lemma_own_events<Req, Resp>(
    start: State<Req, Resp>,
    earlier: History<Req, Resp>,
    later: History<Req, Resp>,
    moves: Seq<Move<Req, Resp>>,
) -> (at: Seq<int>)
    requires
        earlier.settled(start),
        later.extends(earlier, start, moves),
    ensures
        at.len() == moves.len(),
        forall|k: int|
            0 <= k < at.len() ==> earlier.events.len() <= #[trigger] at[k] < later.events.len(),
        forall|k: int|
            0 <= k < at.len() ==> later.events[#[trigger] at[k]] == (Event {
                by: me(),
                made: moves[k],
            }),
        forall|k: int, l: int| 0 <= k < l < at.len() ==> #[trigger] at[k] < #[trigger] at[l],
        forall|i: int|
            earlier.events.len() <= i < later.events.len() && (#[trigger] later.events[i]).by
                == me() ==> at.contains(i),
        moves.len() > 0 ==> at.last() == later.events.len() - 1,
        later.woken == earlier.woken + wakes_at(later.trace, later.events, at),
{
    let n = later.events.len() as int;
    assert(later.events.take(n) =~= later.events);
    let at = lemma_own_events_before(start, earlier, later, n);
    let made = at.map_values(|i: int| later.events[i].made);
    assert(later.moves() == earlier.moves() + made);
    assert forall|k: int| 0 <= k < moves.len() implies made[k] == #[trigger] moves[k] by {
        assert((earlier.moves() + made)[earlier.moves().len() + k] == made[k]);
    }
    at
}

/// A history that is extended by one move ends with it. Before, only others have made moves.
pub proof fn lemma_one_move<Req, Resp>(
    start: State<Req, Resp>,
    earlier: History<Req, Resp>,
    later: History<Req, Resp>,
    made: Move<Req, Resp>,
)
    requires
        earlier.settled(start),
        later.extends(earlier, start, seq![made]),
    ensures
        later.events.len() > earlier.events.len(),
        later.events.last() == (Event { by: me(), made }),
        forall|i: int|
            earlier.events.len() <= i < later.events.len() - 1 ==> (#[trigger] later.events[i]).by
                != me(),
        step(later.before(), made, later.now().state),
        later.woken == earlier.woken + held(woken(later.before(), made)),
{
    lemma_own_events(start, earlier, later, seq![made]);
    reveal_with_fuel(wakes_at, 2);
}

/// Lets go of a value.
fn let_go<T>(_value: T) {
}

impl<'a, M: RawMutex, Req, Resp> Session<'a, M, Req, Resp> {
    /// Makes one move, and wakes whom it concerns.
    pub(crate) fn transact<T: Transition<Req, Resp>>(&mut self, transition: T) -> (output:
        T::Output)
        requires
            old(self)@.settled(old(self).cell().initial()),
            forall|output: T::Output|
                enabled(old(self)@.now(), me(), #[trigger] transition.as_move(output)),
        ensures
            final(self).cell() == old(self).cell(),
            final(self)@.extends(
                old(self)@,
                old(self).cell().initial(),
                seq![transition.as_move(output)],
            ),
            same_point(
                users_after(
                    old(self)@.now(),
                    (Event { by: me(), made: transition.as_move(output) }),
                ),
                final(self)@.now(),
                me(),
            ),
    {
        let Applied { output, to_wake, discarded } = self.lock(transition);
        let ghost start = self.cell().initial();
        let ghost made = transition.as_move(output);
        proof {
            let n = self@.events.len() - 1;
            lemma_others(start, old(self)@, self@, n);
            assert(self@.moves() =~= old(self)@.moves() + seq![made]);
        }
        let_go(discarded);
        if let Some(waker) = to_wake {
            self.wake(waker);
        }
        output
    }
}

} // verus!

//! The moves on the shared state, one by one.
use embedded_rpc::{RequestDroppedError, SlotAnswer, State};
use std::sync::atomic::{AtomicUsize, Ordering};
use std::sync::Arc;
use std::task::{Wake, Waker};

struct Counter(AtomicUsize);

impl Wake for Counter {
    fn wake(self: Arc<Self>) {
        self.0.fetch_add(1, Ordering::SeqCst);
    }
}

fn counter() -> (Arc<Counter>, Waker) {
    let count = Arc::new(Counter(AtomicUsize::new(0)));
    let waker = Waker::from(Arc::clone(&count));
    (count, waker)
}

fn count(counter: &Arc<Counter>) -> usize {
    counter.0.load(Ordering::SeqCst)
}

#[test]
fn new_state_is_empty() {
    let state: State<u32, u32> = State::new();
    assert!(!state.client_busy);
    assert!(!state.client_abandoned);
    assert!(state.waiting_client_slot_waker.is_none());
    assert!(state.waiting_client_response_waker.is_none());
    assert!(state.waiting_server_waker.is_none());
    assert!(state.queued_request.is_none());
    assert!(state.queued_response.is_none());
}

#[test]
fn slot_goes_to_the_first_client() {
    let (first, first_waker) = counter();
    let (second, second_waker) = counter();
    let mut state: State<u32, u32> = State::new();
    let applied = state.poll_slot(first_waker.clone());
    assert!(matches!(applied.output, SlotAnswer::Acquired));
    assert!(applied.to_wake.is_none());
    assert!(applied.discarded.waker.unwrap().will_wake(&first_waker));
    assert!(state.client_busy);
    assert!(state.waiting_client_slot_waker.is_none());
    let applied = state.poll_slot(second_waker.clone());
    assert!(matches!(applied.output, SlotAnswer::Registered));
    assert!(applied.to_wake.is_none());
    assert!(applied.discarded.waker.is_none());
    assert!(state.waiting_client_slot_waker.as_ref().unwrap().will_wake(&second_waker));
    assert_eq!((count(&first), count(&second)), (0, 0));
}

#[test]
fn request_and_result_make_the_round() {
    let (client, client_waker) = counter();
    let (server, server_waker) = counter();
    let mut state: State<u32, u32> = State::new();
    assert_eq!(state.poll_request(server_waker.clone()).output, None);
    assert!(matches!(state.poll_slot(client_waker.clone()).output, SlotAnswer::Acquired));
    state.submit(5).to_wake.expect("the server waits").wake();
    assert_eq!(count(&server), 1);
    let applied = state.poll_response(client_waker.clone());
    assert_eq!(applied.output, None);
    assert!(applied.to_wake.is_none());
    assert_eq!(state.poll_request(server_waker).output, Some(5));
    assert_eq!(state.queued_request, None);
    state.complete(Ok(10)).to_wake.expect("the client waits").wake();
    assert_eq!(count(&client), 1);
    let applied = state.poll_response(client_waker);
    assert_eq!(applied.output, Some(Ok(10)));
    assert!(applied.to_wake.is_none());
    assert!(!state.client_busy);
    assert_eq!(state.queued_response, None);
}

#[test]
fn delivered_response_wakes_the_next_client() {
    let (_, client_waker) = counter();
    let (next, next_waker) = counter();
    let mut state: State<u32, u32> = State::new();
    state.poll_slot(client_waker.clone());
    state.poll_slot(next_waker.clone());
    assert!(state.submit(1).to_wake.is_none());
    assert_eq!(state.poll_request(client_waker.clone()).output, Some(1));
    assert!(state.complete(Err(RequestDroppedError)).to_wake.is_none());
    let applied = state.poll_response(client_waker);
    assert_eq!(applied.output, Some(Err(RequestDroppedError)));
    applied.to_wake.expect("the next client waits").wake();
    assert_eq!(count(&next), 1);
    assert!(matches!(state.poll_slot(next_waker).output, SlotAnswer::Acquired));
}

#[test]
fn later_waiting_client_wakes_the_earlier_one() {
    let (_, client_waker) = counter();
    let (earlier, earlier_waker) = counter();
    let (later, later_waker) = counter();
    let mut state: State<u32, u32> = State::new();
    state.poll_slot(client_waker);
    assert!(state.poll_slot(earlier_waker).to_wake.is_none());
    state.poll_slot(later_waker.clone()).to_wake.expect("a client waits").wake();
    assert_eq!((count(&earlier), count(&later)), (1, 0));
    assert!(state.waiting_client_slot_waker.as_ref().unwrap().will_wake(&later_waker));
    assert!(state.submit(1).to_wake.is_none());
    state.cancel().to_wake.expect("a client waits").wake();
    assert_eq!((count(&earlier), count(&later)), (1, 1));
    assert!(state.waiting_client_slot_waker.is_none());
}

#[test]
fn client_that_asks_again_stays_registered() {
    let (_, client_waker) = counter();
    let (waiting, waiting_waker) = counter();
    let mut state: State<u32, u32> = State::new();
    state.poll_slot(client_waker);
    state.poll_slot(waiting_waker.clone());
    let applied = state.poll_slot(waiting_waker.clone());
    assert!(matches!(applied.output, SlotAnswer::Renewed));
    assert!(applied.to_wake.is_none());
    assert!(applied.discarded.waker.unwrap().will_wake(&waiting_waker));
    assert!(state.waiting_client_slot_waker.as_ref().unwrap().will_wake(&waiting_waker));
    assert_eq!(count(&waiting), 0);
    assert!(state.submit(1).to_wake.is_none());
    state.cancel().to_wake.expect("a client waits").wake();
    assert_eq!(count(&waiting), 1);
}

#[test]
fn later_server_takes_the_place_of_the_earlier_one() {
    let (earlier, earlier_waker) = counter();
    let (later, later_waker) = counter();
    let mut state: State<u32, u32> = State::new();
    assert_eq!(state.poll_request(earlier_waker.clone()).output, None);
    let applied = state.poll_request(later_waker);
    assert!(applied.to_wake.is_none());
    assert!(applied.discarded.waker.unwrap().will_wake(&earlier_waker));
    state.poll_slot(earlier_waker);
    state.submit(1).to_wake.expect("a server waits").wake();
    assert_eq!((count(&earlier), count(&later)), (0, 1));
}

#[test]
fn cancel_removes_a_queued_request() {
    let (_, client_waker) = counter();
    let (next, next_waker) = counter();
    let mut state: State<u32, u32> = State::new();
    state.poll_slot(client_waker.clone());
    state.poll_slot(next_waker);
    assert!(state.submit(1).to_wake.is_none());
    let applied = state.cancel();
    assert_eq!(applied.discarded.request, Some(1));
    assert_eq!(applied.discarded.response, None);
    applied.to_wake.expect("the next client waits").wake();
    assert_eq!(count(&next), 1);
    assert_eq!(state.queued_request, None);
    assert!(!state.client_busy);
    assert!(!state.client_abandoned);
    assert_eq!(state.poll_request(client_waker).output, None);
}

#[test]
fn cancel_removes_a_queued_response() {
    let (_, client_waker) = counter();
    let mut state: State<u32, u32> = State::new();
    state.poll_slot(client_waker.clone());
    assert!(state.submit(1).to_wake.is_none());
    assert_eq!(state.poll_request(client_waker).output, Some(1));
    assert!(state.complete(Ok(2)).to_wake.is_none());
    let applied = state.cancel();
    assert!(applied.to_wake.is_none());
    assert_eq!(applied.discarded.request, None);
    assert_eq!(applied.discarded.response, Some(Ok(2)));
    assert_eq!(state.queued_response, None);
    assert!(!state.client_busy);
    assert!(!state.client_abandoned);
}

#[test]
fn cancel_while_served_waits_for_the_server() {
    let (client, client_waker) = counter();
    let (next, next_waker) = counter();
    let mut state: State<u32, u32> = State::new();
    state.poll_slot(client_waker.clone());
    assert!(state.submit(1).to_wake.is_none());
    assert_eq!(state.poll_request(client_waker.clone()).output, Some(1));
    assert_eq!(state.poll_response(client_waker).output, None);
    assert!(state.cancel().to_wake.is_none());
    assert!(state.client_abandoned);
    assert!(matches!(state.poll_slot(next_waker.clone()).output, SlotAnswer::Registered));
    let applied = state.complete(Ok(2));
    assert_eq!(applied.discarded.response, Some(Ok(2)));
    applied.to_wake.expect("the next client waits").wake();
    assert_eq!((count(&client), count(&next)), (0, 1));
    assert_eq!(state.queued_response, None);
    assert!(!state.client_abandoned);
    assert!(matches!(state.poll_slot(next_waker).output, SlotAnswer::Acquired));
}

//! Clients and servers as tasks of a small executor that polls a task only after it was woken.
//! A task that nobody wakes never finishes, so a missed wake-up shows as a missing result.
use embassy_sync::blocking_mutex::raw::NoopRawMutex;
use embedded_rpc::{RequestCall, RequestDroppedError, RpcService, ServeCall, ServedRequest};
use std::cell::{Cell, RefCell};
use std::future::Future;
use std::pin::Pin;
use std::rc::Rc;
use std::sync::atomic::{AtomicBool, Ordering};
use std::sync::Arc;
use std::task::{Context, Poll, Wake, Waker};

type Service<Req, Resp> = RpcService<NoopRawMutex, Req, Resp>;

struct Flag(AtomicBool);

impl Wake for Flag {
    fn wake(self: Arc<Self>) {
        self.0.store(true, Ordering::SeqCst);
    }
}

struct Task<'a> {
    woken: Arc<Flag>,
    future: Option<Pin<Box<dyn Future<Output = ()> + 'a>>>,
}

struct Executor<'a> {
    tasks: Vec<Task<'a>>,
}

impl<'a> Executor<'a> {
    fn new() -> Self {
        Executor { tasks: Vec::new() }
    }

    fn spawn(&mut self, future: impl Future<Output = ()> + 'a) -> usize {
        self.tasks.push(Task {
            woken: Arc::new(Flag(AtomicBool::new(true))),
            future: Some(Box::pin(future)),
        });
        self.tasks.len() - 1
    }

    /// Polls woken tasks until no task is woken.
    fn run(&mut self) {
        loop {
            let mut idle: bool = true;
            for task in self.tasks.iter_mut() {
                if task.woken.0.swap(false, Ordering::SeqCst) {
                    idle = false;
                    let waker = Waker::from(Arc::clone(&task.woken));
                    let mut context = Context::from_waker(&waker);
                    let done: bool = match task.future.as_mut() {
                        Some(future) => future.as_mut().poll(&mut context).is_ready(),
                        None => false,
                    };
                    if done {
                        task.future = None;
                    }
                }
            }
            if idle {
                return;
            }
        }
    }

    fn abort(&mut self, id: usize) {
        self.tasks[id].future = None;
    }

    fn finished(&self, id: usize) -> bool {
        self.tasks[id].future.is_none()
    }
}

/// A client's call as a future, which cancels the call when it is dropped.
struct Request<'a, Req, Resp>(Option<RequestCall<'a, NoopRawMutex, Req, Resp>>);

impl<'a, Req: Unpin, Resp: Unpin> Future for Request<'a, Req, Resp> {
    type Output = Result<Resp, RequestDroppedError>;

    fn poll(self: Pin<&mut Self>, cx: &mut Context<'_>) -> Poll<Self::Output> {
        let call = self.get_mut().0.as_mut().expect("polled after completion");
        match call.poll(cx.waker()) {
            Some(result) => Poll::Ready(result),
            None => Poll::Pending,
        }
    }
}

impl<'a, Req, Resp> Drop for Request<'a, Req, Resp> {
    fn drop(&mut self) {
        if let Some(call) = self.0.take() {
            call.cancel();
        }
    }
}

fn request<Req, Resp>(service: &Service<Req, Resp>, req: Req) -> Request<'_, Req, Resp> {
    Request(Some(service.request(req)))
}

struct Serve<'a, Req, Resp>(ServeCall<'a, NoopRawMutex, Req, Resp>);

impl<'a, Req: Unpin, Resp: Unpin> Future for Serve<'a, Req, Resp> {
    type Output = (Req, ServedRequest<'a, NoopRawMutex, Req, Resp>);

    fn poll(self: Pin<&mut Self>, cx: &mut Context<'_>) -> Poll<Self::Output> {
        match self.get_mut().0.poll(cx.waker()) {
            Some(served) => Poll::Ready(served),
            None => Poll::Pending,
        }
    }
}

fn serve<Req, Resp>(service: &Service<Req, Resp>) -> Serve<'_, Req, Resp> {
    Serve(service.serve())
}

/// Lets the other tasks run once.
struct YieldNow(bool);

impl Future for YieldNow {
    type Output = ();

    fn poll(mut self: Pin<&mut Self>, cx: &mut Context<'_>) -> Poll<()> {
        if self.0 {
            return Poll::Ready(());
        }
        self.0 = true;
        cx.waker().wake_by_ref();
        Poll::Pending
    }
}

fn yield_now() -> YieldNow {
    YieldNow(false)
}

/// Something that a test lets happen.
struct Gate {
    open: Cell<bool>,
    waiting: RefCell<Option<Waker>>,
}

impl Gate {
    fn new() -> Self {
        Gate { open: Cell::new(false), waiting: RefCell::new(None) }
    }

    fn open(&self) {
        self.open.set(true);
        if let Some(waker) = self.waiting.borrow_mut().take() {
            waker.wake();
        }
    }

    fn opened(&self) -> Opened<'_> {
        Opened(self)
    }
}

struct Opened<'a>(&'a Gate);

impl<'a> Future for Opened<'a> {
    type Output = ();

    fn poll(self: Pin<&mut Self>, cx: &mut Context<'_>) -> Poll<()> {
        if self.0.open.get() {
            return Poll::Ready(());
        }
        *self.0.waiting.borrow_mut() = Some(cx.waker().clone());
        Poll::Pending
    }
}

/// The client lends a mutable buffer to the server for the duration of the call.
struct BufferRequest<'a> {
    buffer: &'a mut [u8],
}

#[test]
fn server_writes_through_client_buffer_slice() {
    let mut buf = [0u8; 8];
    let client_result = Cell::new(None);
    {
        let service: Service<BufferRequest<'_>, ()> = RpcService::new();
        let lent = &mut buf;
        let mut executor = Executor::new();
        executor.spawn(async {
            let (req, served) = serve(&service).await;
            req.buffer[0] = 0xab;
            req.buffer[1] = 0xcd;
            req.buffer[2..].fill(0x7e);
            served.respond(());
        });
        executor.spawn(async {
            client_result.set(Some(request(&service, BufferRequest { buffer: lent }).await));
        });
        executor.run();
    }
    assert_eq!(buf, [0xab, 0xcd, 0x7e, 0x7e, 0x7e, 0x7e, 0x7e, 0x7e]);
    assert_eq!(client_result.get(), Some(Ok(())));
}

#[test]
fn round_trip_response_is_delivered() {
    let service: Service<u32, u32> = RpcService::new();
    let client_result = Cell::new(None);
    let mut executor = Executor::new();
    executor.spawn(async {
        let (_req, served) = serve(&service).await;
        served.respond(10);
    });
    executor.spawn(async { client_result.set(Some(request(&service, 5).await)) });
    executor.run();
    assert_eq!(client_result.get(), Some(Ok(10)));
}

#[test]
fn dropped_request_returns_error() {
    let service: Service<u32, u32> = RpcService::new();
    let client_result = Cell::new(None);
    let mut executor = Executor::new();
    executor.spawn(async {
        let (_req, served) = serve(&service).await;
        // Let go without an answer.
        served.abandon();
    });
    executor.spawn(async { client_result.set(Some(request(&service, 42).await)) });
    executor.run();
    assert_eq!(client_result.get(), Some(Err(RequestDroppedError)));
}

#[test]
fn server_can_wait_before_client_requests() {
    let service: Service<u32, u32> = RpcService::new();
    let client_result = Cell::new(None);
    let gate = Gate::new();
    let mut executor = Executor::new();
    executor.spawn(async {
        let (_req, served) = serve(&service).await;
        served.respond(123);
    });
    executor.spawn(async {
        gate.opened().await;
        client_result.set(Some(request(&service, 1).await));
    });
    executor.run();
    assert_eq!(client_result.get(), None);
    gate.open();
    executor.run();
    assert_eq!(client_result.get(), Some(Ok(123)));
}

#[test]
fn concurrent_clients_are_serialized_and_complete() {
    let service: Service<u32, u32> = RpcService::new();
    let r1 = Cell::new(None);
    let r2 = Cell::new(None);
    let mut executor = Executor::new();
    executor.spawn(async {
        for _ in 0..2 {
            let (value, served) = serve(&service).await;
            served.respond(value + 1);
        }
    });
    executor.spawn(async { r1.set(Some(request(&service, 10).await)) });
    executor.spawn(async { r2.set(Some(request(&service, 20).await)) });
    executor.run();
    assert_eq!(r1.get(), Some(Ok(11)));
    assert_eq!(r2.get(), Some(Ok(21)));
}

#[test]
fn into_inner_consumes_request_and_client_receives_dropped_error() {
    let service: Service<u32, u32> = RpcService::new();
    let client_result = Cell::new(None);
    let inner = Cell::new(None);
    let mut executor = Executor::new();
    executor.spawn(async {
        let (req, served) = serve(&service).await;
        inner.set(Some(req));
        // Let go of the handle without an answer.
        served.abandon();
    });
    executor.spawn(async { client_result.set(Some(request(&service, 42).await)) });
    executor.run();
    assert_eq!(inner.get(), Some(42));
    assert_eq!(client_result.get(), Some(Err(RequestDroppedError)));
}

#[test]
fn cancelled_client_before_server_takes_request_wakes_waiting_slot_client() {
    let service: Service<u32, u32> = RpcService::new();
    let cancelled_result = Cell::new(None);
    let waiting_result = Cell::new(None);
    let mut executor = Executor::new();
    let client_cancelled: usize = executor
        .spawn(async { cancelled_result.set(Some(request(&service, 1).await)) });
    executor.spawn(async { waiting_result.set(Some(request(&service, 2).await)) });
    executor.run();
    executor.abort(client_cancelled);
    let server: usize = executor.spawn(async {
        let (n, served) = serve(&service).await;
        served.respond(n + 10);
    });
    executor.run();
    assert_eq!(waiting_result.get(), Some(Ok(12)));
    assert_eq!(cancelled_result.get(), None);
    assert!(executor.finished(server));
}

#[test]
fn cancelled_client_after_server_takes_request_and_responds_wakes_waiting_slot_client() {
    let service: Service<u32, u32> = RpcService::new();
    let taken = Cell::new(false);
    let go_on = Gate::new();
    let cancelled_result = Cell::new(None);
    let waiting_result = Cell::new(None);
    let mut executor = Executor::new();
    let server: usize = executor.spawn(async {
        let (_req, served) = serve(&service).await;
        taken.set(true);
        go_on.opened().await;
        served.respond(99);
        let (_req2, served2) = serve(&service).await;
        served2.respond(7);
    });
    let client_cancelled: usize = executor
        .spawn(async { cancelled_result.set(Some(request(&service, 1).await)) });
    executor.run();
    assert!(taken.get());
    executor.spawn(async { waiting_result.set(Some(request(&service, 2).await)) });
    executor.run();
    executor.abort(client_cancelled);
    executor.run();
    // The slot is not free before the server is done.
    assert_eq!(waiting_result.get(), None);
    go_on.open();
    executor.run();
    assert_eq!(waiting_result.get(), Some(Ok(7)));
    assert_eq!(cancelled_result.get(), None);
    assert!(executor.finished(server));
}

#[test]
fn cancelled_client_after_server_takes_request_and_drops_wakes_waiting_slot_client() {
    let service: Service<u32, u32> = RpcService::new();
    let taken = Cell::new(false);
    let go_on = Gate::new();
    let cancelled_result = Cell::new(None);
    let waiting_result = Cell::new(None);
    let mut executor = Executor::new();
    let server: usize = executor.spawn(async {
        let (_req, served) = serve(&service).await;
        taken.set(true);
        go_on.opened().await;
        // Let go without an answer after the client has gone.
        served.abandon();
        let (_req2, served2) = serve(&service).await;
        served2.respond(42);
    });
    let client_cancelled: usize = executor
        .spawn(async { cancelled_result.set(Some(request(&service, 1).await)) });
    executor.run();
    assert!(taken.get());
    executor.spawn(async { waiting_result.set(Some(request(&service, 2).await)) });
    executor.run();
    executor.abort(client_cancelled);
    executor.run();
    assert_eq!(waiting_result.get(), None);
    go_on.open();
    executor.run();
    assert_eq!(waiting_result.get(), Some(Ok(42)));
    assert_eq!(cancelled_result.get(), None);
    assert!(executor.finished(server));
}

#[test]
fn cancelled_client_after_the_answer_frees_the_slot() {
    let service: Service<u32, u32> = RpcService::new();
    let waiting_result = Cell::new(None);
    let mut executor = Executor::new();
    let mut leaving = Box::pin(request(&service, 1));
    let asleep = Arc::new(Flag(AtomicBool::new(false)));
    let waker = Waker::from(Arc::clone(&asleep));
    assert!(leaving.as_mut().poll(&mut Context::from_waker(&waker)).is_pending());
    executor.spawn(async {
        let (first, served) = serve(&service).await;
        served.respond(first + 1);
        let (second, served) = serve(&service).await;
        served.respond(second + 1);
    });
    executor.spawn(async { waiting_result.set(Some(request(&service, 20).await)) });
    executor.run();
    assert!(asleep.0.load(Ordering::SeqCst));
    assert_eq!(waiting_result.get(), None);
    drop(leaving);
    executor.run();
    assert_eq!(waiting_result.get(), Some(Ok(21)));
}

#[test]
fn client_that_leaves_the_queue_leaves_the_call_under_way_alone() {
    let service: Service<u32, u32> = RpcService::default();
    let go_on = Gate::new();
    let first_result = Cell::new(None);
    let mut executor = Executor::new();
    executor.spawn(async { first_result.set(Some(request(&service, 1).await)) });
    let leaving: usize = executor.spawn(async {
        let _ = request(&service, 2).await;
    });
    executor.run();
    executor.abort(leaving);
    executor.spawn(async {
        go_on.opened().await;
        let (req, served) = serve(&service).await;
        served.respond(req + 1);
    });
    go_on.open();
    executor.run();
    assert_eq!(first_result.get(), Some(Ok(2)));
}

#[test]
fn calls_follow_one_another() {
    let service: Service<u32, u32> = RpcService::new();
    let results = RefCell::new(Vec::new());
    let mut executor = Executor::new();
    executor.spawn(async {
        for _ in 0..3 {
            let (value, served) = serve(&service).await;
            if value == 2 {
                served.abandon();
            } else {
                yield_now().await;
                served.respond(value * 10);
            }
        }
    });
    executor.spawn(async {
        for value in 1..4u32 {
            let result = request(&service, value).await;
            results.borrow_mut().push(result);
        }
    });
    executor.run();
    assert_eq!(*results.borrow(), vec![Ok(10), Err(RequestDroppedError), Ok(30)]);
}

fn asleep() -> Arc<Flag> {
    Arc::new(Flag(AtomicBool::new(false)))
}

fn poll_with<F: Future + Unpin>(future: &mut F, flag: &Arc<Flag>) -> Poll<F::Output> {
    let waker = Waker::from(Arc::clone(flag));
    Pin::new(future).poll(&mut Context::from_waker(&waker))
}

fn woken(flag: &Arc<Flag>) -> bool {
    flag.0.swap(false, Ordering::SeqCst)
}

#[test]
fn clients_that_wait_together_all_complete() {
    let service: Service<u32, u32> = RpcService::new();
    let results = RefCell::new(Vec::new());
    let mut executor = Executor::new();
    for value in 1..6u32 {
        let results = &results;
        let service = &service;
        executor.spawn(async move {
            let result = request(service, value).await;
            results.borrow_mut().push((value, result));
        });
    }
    let server: usize = executor.spawn(async {
        for _ in 0..5 {
            let (value, served) = serve(&service).await;
            yield_now().await;
            served.respond(value * 10);
        }
    });
    executor.run();
    assert!(executor.finished(server));
    let mut results = results.borrow().clone();
    results.sort_by_key(|entry| entry.0);
    assert_eq!(results, vec![(1, Ok(10)), (2, Ok(20)), (3, Ok(30)), (4, Ok(40)), (5, Ok(50))]);
}

#[test]
fn waiting_client_is_not_forgotten_when_a_later_one_leaves() {
    let service: Service<u32, u32> = RpcService::new();
    let (first_flag, second_flag, third_flag) = (asleep(), asleep(), asleep());
    let mut first = request(&service, 1);
    let mut second = request(&service, 2);
    let mut third = request(&service, 3);
    assert!(poll_with(&mut first, &first_flag).is_pending());
    assert!(poll_with(&mut second, &second_flag).is_pending());
    assert!(!woken(&second_flag));
    // The third takes the second's place, and says so.
    assert!(poll_with(&mut third, &third_flag).is_pending());
    assert!(woken(&second_flag));
    assert!(poll_with(&mut second, &second_flag).is_pending());
    assert!(woken(&third_flag));
    drop(third);
    assert!(!woken(&second_flag));
    let server_flag = asleep();
    let (req, served) = match poll_with(&mut serve(&service), &server_flag) {
        Poll::Ready(served) => served,
        Poll::Pending => panic!("a request is queued"),
    };
    assert_eq!(req, 1);
    served.respond(10);
    assert!(woken(&first_flag));
    assert_eq!(poll_with(&mut first, &first_flag), Poll::Ready(Ok(10)));
    assert!(woken(&second_flag));
    assert!(!woken(&third_flag));
    assert!(poll_with(&mut second, &second_flag).is_pending());
    let (req, served) = match poll_with(&mut serve(&service), &server_flag) {
        Poll::Ready(served) => served,
        Poll::Pending => panic!("a request is queued"),
    };
    assert_eq!(req, 2);
    served.respond(20);
    assert_eq!(poll_with(&mut second, &second_flag), Poll::Ready(Ok(20)));
    assert!(!woken(&server_flag));
}

#[test]
fn client_that_is_polled_again_does_not_wake_itself() {
    let service: Service<u32, u32> = RpcService::new();
    let (first_flag, second_flag) = (asleep(), asleep());
    let mut first = request(&service, 1);
    let mut second = request(&service, 2);
    assert!(poll_with(&mut first, &first_flag).is_pending());
    for _ in 0..3 {
        assert!(poll_with(&mut second, &second_flag).is_pending());
        assert!(!woken(&second_flag));
    }
    drop(first);
    assert!(woken(&second_flag));
    assert!(!woken(&first_flag));
}

#[test]
fn slot_is_refused_until_the_result_is_delivered() {
    let service: Service<u32, u32> = RpcService::new();
    let (first_flag, second_flag, server_flag) = (asleep(), asleep(), asleep());
    let mut first = request(&service, 1);
    let mut second = request(&service, 2);
    assert!(poll_with(&mut first, &first_flag).is_pending());
    assert!(poll_with(&mut second, &second_flag).is_pending());
    let served = match poll_with(&mut serve(&service), &server_flag) {
        Poll::Ready((_, served)) => served,
        Poll::Pending => panic!("a request is queued"),
    };
    assert!(poll_with(&mut second, &second_flag).is_pending());
    served.respond(10);
    // The response is queued, and no second request.
    assert!(poll_with(&mut second, &second_flag).is_pending());
    assert!(poll_with(&mut serve(&service), &server_flag).is_pending());
    assert!(!woken(&second_flag));
    assert_eq!(poll_with(&mut first, &first_flag), Poll::Ready(Ok(10)));
    assert!(woken(&second_flag));
    assert!(poll_with(&mut second, &second_flag).is_pending());
    assert!(woken(&server_flag));
}

#[test]
fn requests_are_served_in_the_order_of_submission() {
    let service: Service<u32, u32> = RpcService::new();
    let served_values = RefCell::new(Vec::new());
    let cancelled = asleep();
    let mut leaving = request(&service, 7);
    assert!(poll_with(&mut leaving, &cancelled).is_pending());
    drop(leaving);
    let mut executor = Executor::new();
    executor.spawn(async {
        for value in 1..4u32 {
            let _ = request(&service, value).await;
        }
    });
    executor.spawn(async {
        for _ in 0..3 {
            let (value, served) = serve(&service).await;
            served_values.borrow_mut().push(value);
            served.respond(value);
        }
    });
    executor.run();
    assert_eq!(*served_values.borrow(), vec![1, 2, 3]);
}

/// A value that asks the service for a request when it is dropped.
struct Asking(Rc<Asked>);

struct Asked {
    service: Service<Asking, Asking>,
    count: Cell<u32>,
}

impl Drop for Asking {
    fn drop(&mut self) {
        let mut serving = serve(&self.0.service);
        assert!(poll_with(&mut serving, &asleep()).is_pending());
        self.0.count.set(self.0.count.get() + 1);
    }
}

fn take(asked: &Rc<Asked>) -> (Asking, ServedRequest<'_, NoopRawMutex, Asking, Asking>) {
    match poll_with(&mut serve(&asked.service), &asleep()) {
        Poll::Ready(served) => served,
        Poll::Pending => panic!("a request is queued"),
    }
}

#[test]
fn dropped_values_may_use_the_service() {
    let asked = Rc::new(Asked { service: RpcService::new(), count: Cell::new(0) });
    let asking = || Asking(Rc::clone(&asked));

    // A queued request goes with its client.
    let mut first = request(&asked.service, asking());
    assert!(poll_with(&mut first, &asleep()).is_pending());
    drop(first);
    assert_eq!(asked.count.get(), 1);

    // A queued response goes with its client.
    let mut second = request(&asked.service, asking());
    assert!(poll_with(&mut second, &asleep()).is_pending());
    let (req, served) = take(&asked);
    drop(req);
    assert_eq!(asked.count.get(), 2);
    served.respond(asking());
    drop(second);
    assert_eq!(asked.count.get(), 3);

    // A response comes too late.
    let mut third = request(&asked.service, asking());
    assert!(poll_with(&mut third, &asleep()).is_pending());
    let (req, served) = take(&asked);
    drop(req);
    drop(third);
    assert_eq!(asked.count.get(), 4);
    served.respond(asking());
    assert_eq!(asked.count.get(), 5);
}

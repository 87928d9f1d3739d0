# embedded_rpc

Request and response between tasks of one program, over a state in memory. It is no wire
protocol. A service holds one call at a time behind a blocking mutex of `embassy_sync`. Clients
that come while a call is under way wait for their turn.

- `RpcService::request` begins a call. `RequestCall::poll` takes it on, and gives `Ok(resp)`, or
  `Err(RequestDroppedError)` if the server gave up. `RequestCall::cancel` ends it early.
- `RpcService::serve` waits for a request. `ServeCall::poll` gives the request and a
  `ServedRequest`, which `ServedRequest::respond` or `ServedRequest::abandon` completes.

## Layout

- `src/` is the library, verified with Verus. What each access does to the shared state stands in
  `src/state.rs`, and what follows for clients and servers in `src/laws.rs`.
- `src/sync.rs` holds what is taken on trust: the mutex and the wakers.
- `src/service.rs` holds the calls. Each makes its moves in a session, whose history says which
  moves it has made and whom it has woken.
- `app/` turns the polls into `async` functions, and dropping a value into the call that ends it.
- `tests/` runs clients and servers as tasks of a small executor.

## Good to know

- There is room for one waker for each thing that can be waited for. A client that finds another
  task waiting for the slot takes its place and wakes it, so that it asks again. No client is
  forgotten, but clients that wait at the same time wake each other in turn until the slot is
  free. Which of them gets it then is open.
- A service is meant for one server task. Of several that wait, the one that asked last is woken.
- No waker is woken, cloned or dropped, and no request or response is dropped, while the state is
  locked. All of them may call back into the service.
- There are no timeouts.
- With the `std` feature of `embassy_sync`, `ThreadModeRawMutex` works only on a thread named
  `main`.

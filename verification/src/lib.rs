//! Request and response between tasks of one program.
//!
//! A client task calls [`RpcService::request`] and a server task calls [`RpcService::serve`]. The
//! service between them holds one call at a time, behind a mutex of `embassy_sync`, and wakes
//! whoever can go on. Both calls are polled: they never block, and they register a waker where
//! they cannot go on.
//!
//! - [`state`] is what the service remembers, and what each access does to it.
//! - [`protocol`] is a service together with all its users.
//! - [`sync`] is the lock around the state, and what one user knows of it.
//! - [`session`] is the moves of one user, and whom they wake.
//! - [`service`] is the service and its two sides.
//! - [`operations`] and [`calls`] are what each operation does to a state and to a service, in
//!   terms of what goes in and what comes out.
//! - [`laws`] is what the two sides can rely on.
pub mod calls;
pub mod laws;
pub mod operations;
pub mod protocol;
pub mod service;
pub mod session;
pub mod state;
pub mod sync;

pub use service::{RequestCall, RequestStage, RpcService, ServeCall, ServedRequest};
pub use state::{Applied, Discarded, Move, RequestDroppedError, SlotAnswer, State};
pub use sync::{History, Journal, Session, StateCell};

//! A fixed-size worker pool, stated as a verified state machine.
//!
//! The pool owns a hand-off channel and a fixed set of workers. Every
//! operation here is one transition of that machine: accepting a job, a
//! worker taking the next job, a worker finishing, and the two-phase
//! teardown. Nothing in this crate blocks or spawns; a driver that owns the
//! real threads performs each transition under its own lock and waits
//! whenever a transition reports that it would block.

pub mod channel;
pub mod error;
pub mod http;
pub mod pool;
pub mod schedule;
pub mod worker;

pub use channel::{Channel, ChannelView, Received};
pub use error::PoolCreationError;
pub use pool::{PoolView, ShutdownStep, ThreadPool};
pub use worker::{JobOutcome, JoinError, ThreadHandle, Worker, WorkerState, WorkerView};

//! A thread pool for executing short, I/O-heavy futures efficiently.
//!
//! A runtime that steals work may execute a future on another thread than the one its reactor runs
//! on, which costs synchronization. The pool avoids this: each of its threads runs a
//! `tokio::runtime::current_thread::Runtime`, and thus has an I/O reactor of its own, and futures
//! are assigned to the threads round-robin. Once a future has been spawned onto a thread, it
//! remains under the control of that thread.
//!
//! This crate decides; whoever uses it starts the threads, sends them futures and waits for them.
//!
//! - [`Builder`] holds the configuration of a pool. [`Launch`] goes through its threads until all
//!   of them run and the [`Runtime`] is ready.
//! - [`Worker`] is the course of one thread, from its start to its end.
//! - [`Runtime`] and [`Handle`] choose the worker that a future is sent to, and [`Spawner`] does so
//!   for all futures of a stream. [`block_on_step`] decides how a call that waits for a future goes
//!   on.
//! - [`Shutdown`] tells the workers to exit and has their threads joined.

pub mod block_on;
pub mod builder;
pub mod counter;
pub mod executor;
pub mod handle;
pub mod launch;
pub mod naming;
pub mod round_robin;
pub mod runtime;
pub mod shutdown;
pub mod spawner;
pub mod worker;

pub use block_on::{block_on_step, BlockOnEvent, BlockOnStep};
pub use builder::Builder;
pub use handle::Handle;
pub use launch::{Launch, LaunchEvent, LaunchStep, WorkerPlan};
pub use naming::thread_name;
pub use round_robin::worker_for;
pub use runtime::Runtime;
pub use shutdown::{ExitSignal, Shutdown, StopAction, StopEvent, StopFailure, StopStep};
pub use spawner::{after_spawn, Spawner, SpawnerStep, StreamPoll, StreamSpawnError};
pub use worker::{Worker, WorkerStep};

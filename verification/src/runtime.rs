//! The pool itself.

use crate::block_on::{block_on_step, BlockOnEvent, BlockOnStep};
use crate::handle::{
    drawn, in_a_row, law_clones_share_the_rotation, law_kth_spawn, law_sends, starts_at_zero,
    Handle,
};
use crate::round_robin::in_turn;
use crate::shutdown::{
    law_every_thread_is_stopped, stop_actions, ExitSignal, Shutdown, StopAction, Thread,
};
use crate::spawner::Spawner;
use tokio::executor::SpawnError;
use tokio::runtime::current_thread::Handle as WorkerHandle;
use vstd::prelude::*;

verus! {

/// An I/O-oriented thread pool for executing futures.
///
/// Each thread in the pool has its own I/O reactor, and futures are spawned onto threads
/// round-robin. `J` is what a thread can be joined with.
pub struct Runtime<J> {
    handle: Handle,
    threads: Vec<Thread<J>>,
}

impl<J> Runtime<J> {
    /// The handle of the pool.
    pub closed spec fn pool(self) -> Handle {
        self.handle
    }

    /// The threads of the pool, in the order of the workers.
    pub closed spec fn threads(self) -> Seq<Thread<J>> {
        self.threads@
    }

    /// Every worker has its thread.
    #[verifier::type_invariant]
    spec fn worker_threads(self) -> bool {
        self.threads@.len() == self.handle.workers().len()
    }

    /// The pool with the given workers, whose threads have been started.
    pub(crate) fn assemble(workers: Vec<WorkerHandle>, threads: Vec<Thread<J>>) -> (runtime: Self)
        requires
            workers@.len() > 0,
            threads@.len() == workers@.len(),
        ensures
            runtime.pool().workers() == workers@,
            runtime.threads() == threads@,
            starts_at_zero(*runtime.pool().counter()),
    {
        Runtime { handle: Handle::over(workers), threads }
    }

    /// The number of threads.
    pub fn size(&self) -> (nthreads: usize)
        ensures
            nthreads == self.threads().len(),
            nthreads == self.pool().workers().len(),
    {
        proof {
            use_type_invariant(self);
        }
        self.threads.len()
    }

    /// Returns a reference to the handle of the pool.
    ///
    /// It can be cloned in order to get an owned handle, which can be used to spawn additional
    /// futures onto the pool from other threads.
    pub fn handle(&self) -> (handle: &Handle)
        ensures
            *handle == self.pool(),
    {
        &self.handle
    }

    /// Spawns a future onto a worker of the pool.
    ///
    /// The worker is chosen round-robin, and `send` hands it the future: `|worker|
    /// worker.spawn(future)`. The worker is then responsible for polling the future until it
    /// completes. What is returned is the pool itself, for further spawns, or the reason why the
    /// worker refused the future.
    pub fn spawn<S>(&self, send: S) -> (spawned: Result<&Self, SpawnError>)
    where
        S: FnOnce(&WorkerHandle) -> Result<(), SpawnError>,
        requires
            self.pool().accepts(send),
        ensures
            exists|sent: Result<(), SpawnError>| #[trigger]
                self.pool().sends(send, sent) && spawned == match sent {
                    Ok(()) => Ok::<&Self, SpawnError>(self),
                    Err(e) => Err::<&Self, SpawnError>(e),
                },
    {
        let by_handle = self.handle.spawn(send);
        self.spawned(by_handle)
    }

    /// What a spawn returns, given what the handle of the pool returned: the pool itself, or the
    /// reason why the worker refused the future.
    pub fn spawned<'a>(&'a self, by_handle: Result<&Handle, SpawnError>) -> (spawned: Result<
        &'a Self,
        SpawnError,
    >)
        ensures
            spawned == match by_handle {
                Ok(_) => Ok::<&Self, SpawnError>(self),
                Err(e) => Err::<&Self, SpawnError>(e),
            },
    {
        match by_handle {
            Ok(_) => Ok(self),
            Err(e) => Err(e),
        }
    }

    /// Begins to run a future on the pool and to wait for its result: `send` hands the future to the
    /// worker whose turn it is. [`block_on_step`] says how it goes on.
    pub fn block_on<S, O>(&mut self, send: S) -> (step: BlockOnStep<O, SpawnError>)
    where
        S: FnOnce(&WorkerHandle) -> Result<(), SpawnError>,
        requires
            old(self).pool().accepts(send),
        ensures
            *final(self) == *old(self),
            exists|sent: Result<(), SpawnError>| #[trigger]
                old(self).pool().sends(send, sent) && step == match sent {
                    Ok(()) => BlockOnStep::<O, SpawnError>::Enter,
                    Err(e) => BlockOnStep::<O, SpawnError>::Panic(
                        "the runtime is no longer running",
                        e,
                    ),
                },
    {
        let spawned = match self.handle.spawn(send) {
            Ok(_) => Ok(()),
            Err(e) => Err(e),
        };
        block_on_step(BlockOnEvent::Spawned(spawned))
    }

    /// Spawns all futures that `stream` yields onto the pool.
    ///
    /// The returned spawner takes the futures as they come and spawns them round-robin.
    #[must_use]
    pub fn spawn_all<S>(&self, stream: S) -> (spawner: Spawner<S>)
        ensures
            spawner.stream == stream,
            spawner.handle.workers() == self.pool().workers(),
            spawner.handle.counter() == self.pool().counter(),
    {
        self.handle.spawn_all(stream)
    }

    /// Shuts down the pool as soon as possible, by the steps of the shutdown that is returned.
    /// Dropping a `Runtime` instead joins no thread: it only lets go of the triggers.
    ///
    /// Once the workers have been told, attempts to spawn additional futures onto the pool through
    /// an outstanding handle may fail. Futures that have not yet resolved are dropped.
    pub fn shutdown(self) -> (shutdown: Shutdown<J>)
        ensures
            shutdown.left() == stop_actions(self.threads(), true),
    {
        Shutdown::new(self.threads, true)
    }

    /// Shuts down the pool once all spawned futures have completed.
    ///
    /// Once the workers have been told, attempts to spawn additional futures onto the pool through
    /// an outstanding handle may fail.
    pub fn shutdown_on_idle(self) -> (shutdown: Shutdown<J>)
        ensures
            shutdown.left() == stop_actions(self.threads(), false),
    {
        Shutdown::new(self.threads, false)
    }
}

/// A spawn through the pool goes on where a spawn through one of its handles left off: both are turns
/// of one rotation.
pub proof fn law_pool_and_handle_take_turns<J>(
    runtime: Runtime<J>,
    handle: Handle,
    base: usize,
    tickets: Seq<usize>,
    by_handle: WorkerHandle,
    by_pool: WorkerHandle,
)
    requires
        handle.workers() == runtime.pool().workers(),
        handle.counter() == runtime.pool().counter(),
        in_a_row(runtime.pool(), base, tickets, seq![by_handle, by_pool]),
        in_turn(base, 2, runtime.pool().workers().len() as usize),
    ensures
        handle.has_turn(by_handle),
        runtime.pool().has_turn(by_pool),
        by_handle == handle.workers()[base as int % handle.workers().len() as int],
        by_pool == handle.workers()[(base + 1) % handle.workers().len() as int],
{
    let chosen = seq![by_handle, by_pool];
    law_kth_spawn(runtime.pool(), base, tickets, chosen, 0);
    law_kth_spawn(runtime.pool(), base, tickets, chosen, 1);
    law_clones_share_the_rotation(runtime.pool(), handle, base, tickets, chosen);
    assert(drawn(*runtime.pool().counter(), tickets[0]));
    assert(drawn(*runtime.pool().counter(), tickets[1]));
    assert(runtime.pool().has_turn(by_handle));
}

/// A shutdown tells every worker, in order, and then joins every thread, in order. The workers leave
/// their unfinished futures, unless it is a shutdown on idle.
pub proof fn law_shutdown_stops_every_thread<J>(
    runtime: Runtime<J>,
    now: Shutdown<J>,
    on_idle: Shutdown<J>,
    i: int,
)
    requires
        call_ensures(Runtime::<J>::shutdown, (runtime,), now),
        call_ensures(Runtime::<J>::shutdown_on_idle, (runtime,), on_idle),
        0 <= i < runtime.threads().len(),
    ensures
        now.left().len() == 2 * runtime.threads().len(),
        on_idle.left().len() == 2 * runtime.threads().len(),
        now.left()[i] == StopAction::<J>::Signal(
            ExitSignal { trigger: runtime.threads()[i].0, force_exit: true },
        ),
        on_idle.left()[i] == StopAction::<J>::Signal(
            ExitSignal { trigger: runtime.threads()[i].0, force_exit: false },
        ),
        now.left()[runtime.threads().len() + i] == StopAction::Join(runtime.threads()[i].1),
        on_idle.left()[runtime.threads().len() + i] == StopAction::Join(runtime.threads()[i].1),
{
    law_every_thread_is_stopped(runtime.threads(), true, i);
    law_every_thread_is_stopped(runtime.threads(), false, i);
}

/// A spawn through the pool hands the future to a worker of the pool, by a ticket drawn from its
/// counter, and returns the pool, or what that worker refused it with.
pub proof fn law_pool_spawn<J, S>(
    runtime: Runtime<J>,
    send: S,
    spawned: Result<&Runtime<J>, SpawnError>,
) where S: FnOnce(&WorkerHandle) -> Result<(), SpawnError>
    requires
        call_ensures(Runtime::<J>::spawn::<S>, (&runtime, send), spawned),
    ensures
        exists|t: usize, sent: Result<(), SpawnError>|
            {
                &&& #[trigger] drawn(*runtime.pool().counter(), t)
                &&& #[trigger] call_ensures(
                    send,
                    (&runtime.pool().workers()[t as int % runtime.pool().workers().len() as int],),
                    sent,
                )
                &&& sent is Ok ==> spawned == Ok::<&Runtime<J>, SpawnError>(&runtime)
                &&& sent matches Err(e) ==> spawned == Err::<&Runtime<J>, SpawnError>(e)
            },
{
    let sent = choose|sent: Result<(), SpawnError>| #[trigger]
        runtime.pool().sends(send, sent) && spawned == match sent {
            Ok(()) => Ok::<&Runtime<J>, SpawnError>(&runtime),
            Err(e) => Err::<&Runtime<J>, SpawnError>(e),
        };
    law_sends(runtime.pool(), send, sent);
}

} // verus!

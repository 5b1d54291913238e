//! Handles, through which futures are spawned onto the pool.

use crate::counter::Counter;
use crate::round_robin::{
    assigned, in_turn, law_balanced, law_first_worker, law_kth_worker, law_next_worker,
    law_no_worker_twice, law_tickets_differ, load, ticket, turn_of, worker_for,
};
use crate::spawner::Spawner;
use std::sync::atomic::{AtomicUsize, Ordering};
use std::sync::Arc;
use tokio::executor::SpawnError;
use tokio::runtime::current_thread::Handle as WorkerHandle;
use vstd::arithmetic::div_mod::lemma_fundamental_div_mod_converse;
use vstd::prelude::*;

verus! {

/// Whether `counter` has been made to stand at zero.
pub open spec fn starts_at_zero(counter: AtomicUsize) -> bool {
    call_ensures(AtomicUsize::new, (0usize,), counter)
}

/// Whether `ticket` has been drawn from `counter`, which has counted up by one for it.
pub open spec fn drawn(counter: AtomicUsize, ticket: usize) -> bool {
    call_ensures(AtomicUsize::fetch_add, (&counter, 1usize, Ordering::Relaxed), ticket)
}

/// Whether `ticket` has been read from `counter`.
pub open spec fn seen(counter: AtomicUsize, ticket: usize) -> bool {
    call_ensures(AtomicUsize::load, (&counter, Ordering::Relaxed), ticket)
}

/// A handle to a pool that allows spawning additional futures from other threads.
pub struct Handle {
    workers: Vec<WorkerHandle>,
    rri: Counter,
}

impl Clone for Handle {
    /// Another handle to the same pool: it draws its tickets from the same counter.
    fn clone(&self) -> (copy: Self)
        ensures
            copy.workers() == self.workers(),
            copy.counter() == self.counter(),
    {
        proof {
            use_type_invariant(self);
        }
        let workers = self.workers.clone();
        assert(workers@ == self.workers@);
        Handle { workers, rri: self.rri.clone() }
    }
}

impl Handle {
    /// A pool has at least one worker.
    #[verifier::type_invariant]
    spec fn has_workers(self) -> bool {
        self.workers@.len() > 0
    }

    /// The workers of the pool, in order.
    pub closed spec fn workers(self) -> Seq<WorkerHandle> {
        self.workers@
    }

    /// The counter from which the handles of the pool draw their tickets.
    pub closed spec fn counter(self) -> Arc<AtomicUsize> {
        self.rri.cell()
    }

    /// The worker whose turn it is with the given ticket.
    pub open spec fn worker_of(self, ticket: usize) -> WorkerHandle {
        self.workers()[turn_of(ticket as int, self.workers().len() as int)]
    }

    /// Whether it is the turn of `worker`, by a ticket drawn from the counter of the pool.
    pub open spec fn has_turn(self, worker: WorkerHandle) -> bool {
        exists|ticket: usize| #[trigger]
            drawn(*self.counter(), ticket) && worker == self.worker_of(ticket)
    }

    /// Whether `send` can be called with any worker of the pool.
    pub open spec fn accepts<S>(self, send: S) -> bool where
        S: FnOnce(&WorkerHandle) -> Result<(), SpawnError>,
     {
        forall|i: int|
            0 <= i < self.workers().len() ==> call_requires(
                send,
                (&#[trigger] self.workers()[i],),
            )
    }

    /// Whether `sent` is what calling `send` with the worker whose turn it is has returned.
    pub open spec fn sends<S>(self, send: S, sent: Result<(), SpawnError>) -> bool where
        S: FnOnce(&WorkerHandle) -> Result<(), SpawnError>,
     {
        exists|worker: WorkerHandle| #[trigger]
            self.has_turn(worker) && call_ensures(send, (&worker,), sent)
    }

    /// The handle of a new pool with the given workers. Its first ticket is zero.
    pub(crate) fn over(workers: Vec<WorkerHandle>) -> (handle: Self)
        requires
            workers@.len() > 0,
        ensures
            handle.workers() == workers@,
            starts_at_zero(*handle.counter()),
    {
        Handle { workers, rri: Counter::new() }
    }

    /// The number of workers.
    pub fn size(&self) -> (nworkers: usize)
        ensures
            nworkers == self.workers().len(),
            nworkers > 0,
    {
        proof {
            use_type_invariant(self);
        }
        self.workers.len()
    }

    /// The ticket that the next spawn draws, unless another thread draws it first.
    pub fn next(&self) -> (ticket: usize)
        ensures
            seen(*self.counter(), ticket),
    {
        self.rri.read()
    }

    /// Spawns a future onto a worker of the pool.
    ///
    /// The worker is chosen round-robin, and `send` hands it the future: `|worker|
    /// worker.spawn(future)`. The worker is then responsible for polling the future until it
    /// completes. What is returned is the handle itself, for further spawns, or the reason why the
    /// worker refused the future.
    pub fn spawn<S>(&self, send: S) -> (spawned: Result<&Self, SpawnError>)
    where
        S: FnOnce(&WorkerHandle) -> Result<(), SpawnError>,
        requires
            self.accepts(send),
        ensures
            exists|sent: Result<(), SpawnError>| #[trigger]
                self.sends(send, sent) && spawned == match sent {
                    Ok(()) => Ok::<&Self, SpawnError>(self),
                    Err(e) => Err::<&Self, SpawnError>(e),
                },
    {
        let worker = self.assign();
        let sent = send(worker);
        assert(self.sends(send, sent));
        self.spawned(sent)
    }

    /// What a spawn returns, given what became of the future: the handle itself, or the reason why
    /// the worker refused the future.
    pub fn spawned(&self, sent: Result<(), SpawnError>) -> (spawned: Result<&Self, SpawnError>)
        ensures
            spawned == match sent {
                Ok(()) => Ok::<&Self, SpawnError>(self),
                Err(e) => Err::<&Self, SpawnError>(e),
            },
    {
        match sent {
            Ok(()) => Ok(self),
            Err(e) => Err(e),
        }
    }

    /// Draws a ticket, and returns the worker whose turn it is with that ticket.
    pub fn assign(&self) -> (worker: &WorkerHandle)
        ensures
            self.has_turn(*worker),
            self.workers().contains(*worker),
    {
        let ticket: usize = self.draw();
        self.worker_with_ticket(ticket)
    }

    /// Draws the next ticket from the counter of the pool.
    fn draw(&self) -> (ticket: usize)
        ensures
            drawn(*self.counter(), ticket),
    {
        self.rri.draw()
    }

    /// The worker whose turn it is with the given ticket.
    pub fn worker_with_ticket(&self, ticket: usize) -> (worker: &WorkerHandle)
        ensures
            *worker == self.worker_of(ticket),
            self.workers().contains(*worker),
    {
        proof {
            use_type_invariant(self);
        }
        let index: usize = worker_for(ticket, self.workers.len());
        &self.workers[index]
    }

    /// Spawns all futures that `stream` yields onto the pool.
    ///
    /// The returned spawner takes the futures as they come and spawns them round-robin.
    pub fn spawn_all<S>(&self, stream: S) -> (spawner: Spawner<S>)
        ensures
            spawner.stream == stream,
            spawner.handle.workers() == self.workers(),
            spawner.handle.counter() == self.counter(),
    {
        Spawner { handle: self.clone(), stream }
    }
}

/// Spawns in a row through the handles of one pool, whose counter stood at `base` before the first
/// of them: each draws the ticket that the counter has come to, and goes to the worker whose turn it
/// is with that ticket.
pub open spec fn in_a_row(
    handle: Handle,
    base: usize,
    tickets: Seq<usize>,
    chosen: Seq<WorkerHandle>,
) -> bool {
    &&& 0 < handle.workers().len() <= usize::MAX
    &&& tickets.len() == chosen.len()
    &&& forall|k: int|
        0 <= k < tickets.len() ==> {
            &&& drawn(*handle.counter(), #[trigger] tickets[k])
            &&& tickets[k] == ticket(base, k)
            &&& chosen[k] == handle.worker_of(tickets[k])
        }
}

/// How many of the first `count` spawns go to the worker with the given index.
pub open spec fn share(handle: Handle, tickets: Seq<usize>, count: nat, worker: int) -> nat
    decreases count,
{
    if count == 0 {
        0
    } else {
        let before = share(handle, tickets, (count - 1) as nat, worker);
        if turn_of(tickets[count - 1] as int, handle.workers().len() as int) == worker {
            before + 1
        } else {
            before
        }
    }
}

/// Spawns in a row go to the workers round-robin: each goes to the worker after the one before it,
/// and after the last worker it is the first one's turn.
pub proof fn law_spawns_take_turns(
    handle: Handle,
    base: usize,
    tickets: Seq<usize>,
    chosen: Seq<WorkerHandle>,
    k: int,
)
    requires
        in_a_row(handle, base, tickets, chosen),
        0 <= k < k + 1 < tickets.len(),
        in_turn(base, k + 2, handle.workers().len() as usize),
    ensures
        ({
            let n = handle.workers().len();
            let i = assigned(base, k, n as usize);
            &&& chosen[k] == handle.workers()[i]
            &&& chosen[k + 1] == handle.workers()[if i == n - 1 {
                0
            } else {
                i + 1
            }]
        }),
{
    law_next_worker(base, k, handle.workers().len() as usize);
    assert(tickets[k] == ticket(base, k));
    assert(tickets[k + 1] == ticket(base, k + 1));
}

/// The `k`-th of spawns in a row goes to the worker `k` places after the one whose turn it is.
pub proof fn law_kth_spawn(
    handle: Handle,
    base: usize,
    tickets: Seq<usize>,
    chosen: Seq<WorkerHandle>,
    k: int,
)
    requires
        in_a_row(handle, base, tickets, chosen),
        0 <= k < tickets.len(),
        in_turn(base, k + 1, handle.workers().len() as usize),
    ensures
        chosen[k] == handle.workers()[(base + k) % handle.workers().len() as int],
{
    law_kth_worker(base, k, handle.workers().len() as usize);
    assert(tickets[k] == ticket(base, k));
}

/// Spawns in a row draw different tickets, until the counter has been all the way around.
pub proof fn law_spawns_draw_different_tickets(
    handle: Handle,
    base: usize,
    tickets: Seq<usize>,
    chosen: Seq<WorkerHandle>,
    j: int,
    k: int,
)
    requires
        in_a_row(handle, base, tickets, chosen),
        0 <= j < k < tickets.len(),
        k <= j + usize::MAX,
    ensures
        tickets[j] != tickets[k],
{
    law_tickets_differ(base, j, k);
}

/// Handles with the same workers and the same counter, as clones are, share one rotation: it makes no
/// difference through which of them a future is spawned.
pub proof fn law_clones_share_the_rotation(
    a: Handle,
    b: Handle,
    base: usize,
    tickets: Seq<usize>,
    chosen: Seq<WorkerHandle>,
)
    requires
        a.workers() == b.workers(),
        a.counter() == b.counter(),
    ensures
        forall|worker: WorkerHandle| #[trigger] a.has_turn(worker) <==> b.has_turn(worker),
        in_a_row(a, base, tickets, chosen) <==> in_a_row(b, base, tickets, chosen),
{
    assert forall|t: usize| #[trigger] a.worker_of(t) == b.worker_of(t) by {}
    assert forall|worker: WorkerHandle| #[trigger] a.has_turn(worker) <==> b.has_turn(worker) by {
        if a.has_turn(worker) {
            let t = choose|t: usize| #[trigger]
                drawn(*a.counter(), t) && worker == a.worker_of(t);
            assert(drawn(*b.counter(), t) && worker == b.worker_of(t));
        }
        if b.has_turn(worker) {
            let t = choose|t: usize| #[trigger]
                drawn(*b.counter(), t) && worker == b.worker_of(t);
            assert(drawn(*a.counter(), t) && worker == a.worker_of(t));
        }
    }
}

/// The first spawn onto a pool whose counter stands at zero goes to the first worker.
pub proof fn law_first_spawn(handle: Handle, tickets: Seq<usize>, chosen: Seq<WorkerHandle>)
    requires
        in_a_row(handle, 0, tickets, chosen),
        tickets.len() > 0,
    ensures
        chosen[0] == handle.workers()[0],
{
    law_first_worker(handle.workers().len() as usize);
    assert(tickets[0] == ticket(0, 0));
}

/// Fewer spawns in a row than there are workers do not reach a worker twice.
pub proof fn law_spawns_reach_no_worker_twice(
    handle: Handle,
    base: usize,
    tickets: Seq<usize>,
    chosen: Seq<WorkerHandle>,
    j: int,
    k: int,
)
    requires
        in_a_row(handle, base, tickets, chosen),
        0 <= j < k < tickets.len(),
        k < j + handle.workers().len(),
        in_turn(base, k + 1, handle.workers().len() as usize),
    ensures
        turn_of(tickets[j] as int, handle.workers().len() as int) != turn_of(
            tickets[k] as int,
            handle.workers().len() as int,
        ),
{
    law_no_worker_twice(base, j, k, handle.workers().len() as usize);
}

/// The share of a worker is its load in terms of the tickets.
proof fn lemma_share(
    handle: Handle,
    base: usize,
    tickets: Seq<usize>,
    chosen: Seq<WorkerHandle>,
    count: nat,
    worker: int,
)
    requires
        in_a_row(handle, base, tickets, chosen),
        count <= tickets.len(),
    ensures
        share(handle, tickets, count, worker) == load(
            base,
            count,
            handle.workers().len() as usize,
            worker,
        ),
    decreases count,
{
    if count > 0 {
        lemma_share(handle, base, tickets, chosen, (count - 1) as nat, worker);
        assert(tickets[count - 1] == ticket(base, count - 1));
    }
}

/// Spawns in a row are spread evenly: every worker gets its share, rounded down or rounded up. Of as
/// many spawns as there are workers, each gets one.
pub proof fn law_spawns_are_balanced(
    handle: Handle,
    base: usize,
    tickets: Seq<usize>,
    chosen: Seq<WorkerHandle>,
    count: nat,
    worker: int,
)
    requires
        in_a_row(handle, base, tickets, chosen),
        count <= tickets.len(),
        0 <= worker < handle.workers().len(),
        in_turn(base, count as int, handle.workers().len() as usize),
    ensures
        ({
            let n = handle.workers().len();
            let got = share(handle, tickets, count, worker);
            &&& count / n <= got <= (count + n - 1) as nat / n
            &&& count == n ==> got == 1
        }),
{
    let n = handle.workers().len() as usize;
    lemma_share(handle, base, tickets, chosen, count, worker);
    law_balanced(base, count, n, worker);
    if count == n {
        lemma_fundamental_div_mod_converse(count as int, n as int, 1, 0);
        lemma_fundamental_div_mod_converse(count + n - 1, n as int, 1, n - 1);
    }
}

/// Whatever a pool sends, for a spawn or for a call that waits, goes to the worker at the remainder of
/// a ticket that was drawn from its counter.
pub proof fn law_sends<S>(handle: Handle, send: S, sent: Result<(), SpawnError>) where
    S: FnOnce(&WorkerHandle) -> Result<(), SpawnError>,

    requires
        handle.sends(send, sent),
    ensures
        exists|t: usize| #[trigger]
            drawn(*handle.counter(), t) && call_ensures(
                send,
                (&handle.workers()[t as int % handle.workers().len() as int],),
                sent,
            ),
{
    let worker = choose|worker: WorkerHandle| #[trigger]
        handle.has_turn(worker) && call_ensures(send, (&worker,), sent);
    let t = choose|t: usize| #[trigger]
        drawn(*handle.counter(), t) && worker == handle.worker_of(t);
    assert(drawn(*handle.counter(), t));
}

/// A spawn hands the future to a worker of the pool, by a ticket drawn from its counter, and returns
/// the handle, or what that worker refused it with.
pub proof fn law_spawn<S>(handle: Handle, send: S, spawned: Result<&Handle, SpawnError>) where
    S: FnOnce(&WorkerHandle) -> Result<(), SpawnError>,

    requires
        call_ensures(Handle::spawn::<S>, (&handle, send), spawned),
    ensures
        exists|t: usize, sent: Result<(), SpawnError>|
            {
                &&& #[trigger] drawn(*handle.counter(), t)
                &&& #[trigger] call_ensures(
                    send,
                    (&handle.workers()[t as int % handle.workers().len() as int],),
                    sent,
                )
                &&& sent is Ok ==> spawned == Ok::<&Handle, SpawnError>(&handle)
                &&& sent matches Err(e) ==> spawned == Err::<&Handle, SpawnError>(e)
            },
{
    let sent = choose|sent: Result<(), SpawnError>| #[trigger]
        handle.sends(send, sent) && spawned == match sent {
            Ok(()) => Ok::<&Handle, SpawnError>(&handle),
            Err(e) => Err::<&Handle, SpawnError>(e),
        };
    law_sends(handle, send, sent);
}

/// The worker that is assigned has its place in the pool by a ticket drawn from the counter.
pub proof fn law_assign(handle: Handle, worker: &WorkerHandle)
    requires
        call_ensures(Handle::assign, (&handle,), worker),
    ensures
        exists|t: usize| #[trigger]
            drawn(*handle.counter(), t) && *worker == handle.workers()[t as int
                % handle.workers().len() as int],
{
    let t = choose|t: usize| #[trigger]
        drawn(*handle.counter(), t) && *worker == handle.worker_of(t);
    assert(drawn(*handle.counter(), t));
}

/// The worker of a given ticket stands at the remainder of the ticket by the number of workers.
pub proof fn law_worker_with_ticket(handle: Handle, t: usize, worker: &WorkerHandle)
    requires
        call_ensures(Handle::worker_with_ticket, (&handle, t), worker),
    ensures
        *worker == handle.workers()[t as int % handle.workers().len() as int],
{
}

/// A ticket is drawn by adding one to the counter, and by nothing else.
pub proof fn law_drawn_by_adding_one(counter: AtomicUsize, t: usize)
    ensures
        drawn(counter, t) <==> call_ensures(
            AtomicUsize::fetch_add,
            (&counter, 1usize, Ordering::Relaxed),
            t,
        ),
        seen(counter, t) <==> call_ensures(AtomicUsize::load, (&counter, Ordering::Relaxed), t),
        starts_at_zero(counter) <==> call_ensures(AtomicUsize::new, (0usize,), counter),
{
}

/// The clone of a handle is a handle to the same pool.
pub proof fn law_clone_is_the_same_pool(handle: Handle, copy: Handle)
    requires
        call_ensures(Handle::clone, (&handle,), copy),
    ensures
        copy.workers() == handle.workers(),
        copy.counter() == handle.counter(),
{
}

} // verus!

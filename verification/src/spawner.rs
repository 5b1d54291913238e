//! Spawning every future that a stream yields.

use crate::handle::{drawn, Handle};
use crate::round_robin::{in_turn, law_kth_worker, ticket, turn_of};
use tokio::executor::SpawnError;
use tokio::runtime::current_thread::Handle as WorkerHandle;
use vstd::prelude::*;
use vstd::std_specs::convert::FromSpecImpl;

verus! {

/// An error that occurred as a result of spawning futures from a stream.
#[derive(Debug)]
pub enum StreamSpawnError<SE> {
    /// An error occurred while spawning a future yielded by the stream onto the pool.
    Spawn(SpawnError),
    /// An error occurred while polling the stream for another future.
    Stream(SE),
}

impl<SE> FromSpecImpl<SE> for StreamSpawnError<SE> {
    open spec fn obeys_from_spec() -> bool {
        true
    }

    open spec fn from_spec(e: SE) -> Self {
        StreamSpawnError::Stream(e)
    }
}

impl<SE> From<SE> for StreamSpawnError<SE> {
    fn from(e: SE) -> (error: Self) {
        StreamSpawnError::Stream(e)
    }
}

/// What polling the stream for another future gave.
pub enum StreamPoll<F, SE> {
    /// No future is ready yet.
    Pending,
    /// The stream yielded a future.
    Item(F),
    /// The stream failed.
    Failed(SE),
    /// The stream has ended.
    Ended,
}

/// What a spawner does next.
pub enum SpawnerStep<SE> {
    /// Poll the stream for another future.
    PollStream,
    /// Wait until the stream is ready.
    Pending,
    /// Resolve to the given value.
    Ready(Result<(), StreamSpawnError<SE>>),
}

/// What a spawner does after it sent a future: go on with the stream, or resolve to the error.
pub open spec fn step_after<SE>(sent: Result<(), SpawnError>) -> SpawnerStep<SE> {
    match sent {
        Ok(()) => SpawnerStep::PollStream,
        Err(e) => SpawnerStep::Ready(Err(StreamSpawnError::Spawn(e))),
    }
}

/// What a spawner does after it sent a future to a worker.
pub fn after_spawn<SE>(sent: Result<(), SpawnError>) -> (step: SpawnerStep<SE>)
    ensures
        step == step_after::<SE>(sent),
{
    match sent {
        Ok(()) => SpawnerStep::PollStream,
        Err(e) => SpawnerStep::Ready(Err(StreamSpawnError::Spawn(e))),
    }
}

/// Whether a spawner onto the pool of `handle` takes the given step after polling its stream: a
/// future goes to the worker whose turn it is with `ticket`, and nothing is spawned otherwise.
pub open spec fn advances_with<F, SE, S>(
    handle: Handle,
    ticket: usize,
    polled: StreamPoll<F, SE>,
    send: S,
    step: SpawnerStep<SE>,
) -> bool where S: FnOnce(&WorkerHandle, F) -> Result<(), SpawnError> {
    match polled {
        StreamPoll::Pending => step is Pending,
        StreamPoll::Ended => step == SpawnerStep::<SE>::Ready(Ok(())),
        StreamPoll::Failed(e) => step == SpawnerStep::Ready(Err(StreamSpawnError::Stream(e))),
        StreamPoll::Item(future) => {
            &&& drawn(*handle.counter(), ticket)
            &&& exists|sent: Result<(), SpawnError>| #[trigger]
                call_ensures(send, (&handle.worker_of(ticket), future), sent) && step
                    == step_after::<SE>(sent)
        },
    }
}

/// Whether a spawner onto the pool of `handle` takes the given step after polling its stream, with
/// a ticket of the pool if it takes one.
pub open spec fn advances<F, SE, S>(
    handle: Handle,
    polled: StreamPoll<F, SE>,
    send: S,
    step: SpawnerStep<SE>,
) -> bool where S: FnOnce(&WorkerHandle, F) -> Result<(), SpawnError> {
    exists|ticket: usize| #[trigger] advances_with(handle, ticket, polled, send, step)
}

/// Spawns the futures that a stream yields.
pub struct Spawner<St> {
    /// The handle through which the futures are spawned.
    pub handle: Handle,
    /// The stream that yields the futures.
    pub stream: St,
}

impl<St> Spawner<St> {
    /// Takes what polling the stream gave. For a future that the stream yielded, `send` hands it to
    /// the worker whose turn it is.
    pub fn advance<F, SE, S>(&self, polled: StreamPoll<F, SE>, send: S) -> (step: SpawnerStep<SE>)
    where
        S: FnOnce(&WorkerHandle, F) -> Result<(), SpawnError>,
        requires
            polled matches StreamPoll::Item(future) ==> forall|i: int|
                0 <= i < self.handle.workers().len() ==> call_requires(
                    send,
                    (&#[trigger] self.handle.workers()[i], future),
                ),
        ensures
            advances(self.handle, polled, send, step),
    {
        match polled {
            StreamPoll::Pending => {
                assert(advances_with(self.handle, 0, polled, send, SpawnerStep::Pending));
                SpawnerStep::Pending
            },
            StreamPoll::Ended => {
                assert(advances_with(self.handle, 0, polled, send, SpawnerStep::Ready(Ok(()))));
                SpawnerStep::Ready(Ok(()))
            },
            StreamPoll::Failed(e) => {
                let step = SpawnerStep::Ready(Err(StreamSpawnError::from(e)));
                assert(advances_with(self.handle, 0, polled, send, step));
                step
            },
            StreamPoll::Item(future) => {
                let worker = self.handle.assign();
                let sent = send(worker, future);
                let step = after_spawn(sent);
                proof {
                    let ticket = choose|ticket: usize| #[trigger]
                        drawn(*self.handle.counter(), ticket) && *worker == self.handle.worker_of(
                            ticket,
                        );
                    assert(advances_with(self.handle, ticket, polled, send, step));
                }
                step
            },
        }
    }
}

/// A course of polls of the stream, each with the ticket that was drawn if it yielded a future, what
/// the future was sent with, and the step that the spawner took.
#[verifier::reject_recursive_types(F)]
#[verifier::reject_recursive_types(SE)]
#[verifier::reject_recursive_types(S)]
pub struct Course<F, SE, S> {
    /// What each poll gave.
    pub polls: Seq<StreamPoll<F, SE>>,
    /// The ticket of each poll that yielded a future.
    pub tickets: Seq<usize>,
    /// What hands the future to the worker.
    pub sends: Seq<S>,
    /// The step that followed.
    pub steps: Seq<SpawnerStep<SE>>,
}

impl<F, SE, S> Course<F, SE, S> {
    /// The number of polls.
    pub open spec fn len(self) -> nat {
        self.polls.len()
    }

    /// The course without its last poll.
    pub open spec fn drop_last(self) -> Self {
        Course {
            polls: self.polls.drop_last(),
            tickets: self.tickets.drop_last(),
            sends: self.sends.drop_last(),
            steps: self.steps.drop_last(),
        }
    }

    /// The course without its `i`-th poll.
    pub open spec fn remove(self, i: int) -> Self {
        Course {
            polls: self.polls.remove(i),
            tickets: self.tickets.remove(i),
            sends: self.sends.remove(i),
            steps: self.steps.remove(i),
        }
    }

    /// The futures that were spawned, each with its ticket, what it was sent with and the step that
    /// followed.
    pub open spec fn spawns(self) -> Seq<(F, usize, S, SpawnerStep<SE>)>
        decreases self.len(),
    {
        if self.len() == 0 {
            seq![]
        } else {
            let before = self.drop_last().spawns();
            match self.polls.last() {
                StreamPoll::Item(future) => before.push(
                    (future, self.tickets.last(), self.sends.last(), self.steps.last()),
                ),
                _ => before,
            }
        }
    }

    /// What the spawner resolved to, at the first poll at which it did.
    pub open spec fn outcome(self) -> Option<Result<(), StreamSpawnError<SE>>>
        decreases self.len(),
    {
        if self.len() == 0 {
            None
        } else {
            match self.drop_last().outcome() {
                Some(result) => Some(result),
                None => match self.steps.last() {
                    SpawnerStep::Ready(result) => Some(result),
                    _ => None,
                },
            }
        }
    }
}

/// What the polls gave, without those that found nothing ready.
pub open spec fn unpaused<F, SE>(polls: Seq<StreamPoll<F, SE>>) -> Seq<StreamPoll<F, SE>>
    decreases polls.len(),
{
    if polls.len() == 0 {
        seq![]
    } else if polls.last() is Pending {
        unpaused(polls.drop_last())
    } else {
        unpaused(polls.drop_last()).push(polls.last())
    }
}

/// Whether a spawner onto the pool of `handle` can take this course.
pub open spec fn is_course<F, SE, S>(handle: Handle, course: Course<F, SE, S>) -> bool where
    S: FnOnce(&WorkerHandle, F) -> Result<(), SpawnError>,
 {
    &&& course.polls.len() == course.tickets.len() == course.sends.len() == course.steps.len()
    &&& forall|i: int|
        0 <= i < course.len() ==> #[trigger] advances_with(
            handle,
            course.tickets[i],
            course.polls[i],
            course.sends[i],
            course.steps[i],
        )
}

/// Whether nobody else spawned onto the pool in the meantime, whose counter stood at `base` before
/// the first future: the futures of the stream draw the tickets that the counter comes to.
pub open spec fn undisturbed<F, SE, S>(base: usize, course: Course<F, SE, S>) -> bool {
    forall|j: int|
        0 <= j < course.spawns().len() ==> (#[trigger] course.spawns()[j]).1 == ticket(base, j)
}

/// The course without a poll that found nothing ready has the same spawns and the same outcome.
proof fn lemma_without_pending<F, SE, S>(course: Course<F, SE, S>, i: int)
    requires
        course.polls.len() == course.tickets.len() == course.sends.len() == course.steps.len(),
        0 <= i < course.len(),
        course.polls[i] is Pending,
        course.steps[i] is Pending,
    ensures
        course.remove(i).spawns() == course.spawns(),
        course.remove(i).outcome() == course.outcome(),
    decreases course.len(),
{
    if i == course.len() - 1 {
        assert(course.polls.remove(i) == course.polls.drop_last());
        assert(course.tickets.remove(i) == course.tickets.drop_last());
        assert(course.sends.remove(i) == course.sends.drop_last());
        assert(course.steps.remove(i) == course.steps.drop_last());
    } else {
        lemma_without_pending(course.drop_last(), i);
        assert(course.polls.remove(i).drop_last() == course.polls.drop_last().remove(i));
        assert(course.tickets.remove(i).drop_last() == course.tickets.drop_last().remove(i));
        assert(course.sends.remove(i).drop_last() == course.sends.drop_last().remove(i));
        assert(course.steps.remove(i).drop_last() == course.steps.drop_last().remove(i));
    }
}

/// That nothing was ready in between changes neither which futures are spawned, nor with which
/// tickets and so onto which workers, nor what the spawner resolves to: the course without that poll
/// is just as good.
pub proof fn law_pending_changes_nothing<F, SE, S>(
    handle: Handle,
    base: usize,
    course: Course<F, SE, S>,
    i: int,
) where S: FnOnce(&WorkerHandle, F) -> Result<(), SpawnError>
    requires
        is_course(handle, course),
        0 <= i < course.len(),
        course.polls[i] is Pending,
    ensures
        is_course(handle, course.remove(i)),
        course.remove(i).spawns() == course.spawns(),
        course.remove(i).outcome() == course.outcome(),
        undisturbed(base, course.remove(i)) == undisturbed(base, course),
{
    assert(advances_with(
        handle,
        course.tickets[i],
        course.polls[i],
        course.sends[i],
        course.steps[i],
    ));
    lemma_without_pending(course, i);
    let rest = course.remove(i);
    assert forall|j: int| 0 <= j < rest.len() implies #[trigger] advances_with(
        handle,
        rest.tickets[j],
        rest.polls[j],
        rest.sends[j],
        rest.steps[j],
    ) by {
        let k = if j < i {
            j
        } else {
            j + 1
        };
        assert(advances_with(
            handle,
            course.tickets[k],
            course.polls[k],
            course.sends[k],
            course.steps[k],
        ));
    }
}

/// A part of a course is a course.
proof fn lemma_shorter_course<F, SE, S>(handle: Handle, course: Course<F, SE, S>) where
    S: FnOnce(&WorkerHandle, F) -> Result<(), SpawnError>,

    requires
        is_course(handle, course),
        course.len() > 0,
    ensures
        is_course(handle, course.drop_last()),
{
    let rest = course.drop_last();
    assert forall|j: int| 0 <= j < rest.len() implies #[trigger] advances_with(
        handle,
        rest.tickets[j],
        rest.polls[j],
        rest.sends[j],
        rest.steps[j],
    ) by {
        assert(advances_with(
            handle,
            course.tickets[j],
            course.polls[j],
            course.sends[j],
            course.steps[j],
        ));
    }
}

/// Every spawn of a course goes to the worker whose turn it is with its ticket.
proof fn lemma_spawn_of_course<F, SE, S>(handle: Handle, course: Course<F, SE, S>, j: int) where
    S: FnOnce(&WorkerHandle, F) -> Result<(), SpawnError>,

    requires
        is_course(handle, course),
        0 <= j < course.spawns().len(),
    ensures
        ({
            let (future, ticket, send, step) = course.spawns()[j];
            advances_with(handle, ticket, StreamPoll::<F, SE>::Item(future), send, step)
        }),
    decreases course.len(),
{
    let last = course.len() - 1;
    lemma_shorter_course(handle, course);
    assert(advances_with(
        handle,
        course.tickets[last],
        course.polls[last],
        course.sends[last],
        course.steps[last],
    ));
    if j < course.drop_last().spawns().len() {
        lemma_spawn_of_course(handle, course.drop_last(), j);
    }
}

/// The futures of a stream are spawned round-robin: the `j`-th of them goes to the worker `j` places
/// after the one whose turn it was, and the spawner goes on with what that worker replied.
pub proof fn law_stream_takes_turns<F, SE, S>(
    handle: Handle,
    base: usize,
    course: Course<F, SE, S>,
    j: int,
) where S: FnOnce(&WorkerHandle, F) -> Result<(), SpawnError>
    requires
        is_course(handle, course),
        undisturbed(base, course),
        0 < handle.workers().len() <= usize::MAX,
        0 <= j < course.spawns().len(),
        in_turn(base, j + 1, handle.workers().len() as usize),
    ensures
        ({
            let (future, ticket, send, step) = course.spawns()[j];
            let worker = handle.workers()[(base + j) % handle.workers().len() as int];
            &&& drawn(*handle.counter(), ticket)
            &&& handle.worker_of(ticket) == worker
            &&& exists|sent: Result<(), SpawnError>| #[trigger]
                call_ensures(send, (&worker, future), sent) && step == step_after::<SE>(sent)
        }),
{
    lemma_spawn_of_course(handle, course, j);
    law_kth_worker(base, j, handle.workers().len() as usize);
    assert(course.spawns()[j].1 == ticket(base, j));
}

/// Two spawners over pools with as many workers and counters that stand alike, whose streams yield
/// the same but for how often nothing is ready, and whose workers reply alike, spawn the same futures
/// in the same order onto the same workers, and resolve to the same.
pub proof fn law_pauses_do_not_show<F, SE, S, T>(
    a: Handle,
    b: Handle,
    base: usize,
    c: Course<F, SE, S>,
    d: Course<F, SE, T>,
)
    where
        S: FnOnce(&WorkerHandle, F) -> Result<(), SpawnError>,
        T: FnOnce(&WorkerHandle, F) -> Result<(), SpawnError>,

    requires
        is_course(a, c),
        is_course(b, d),
        a.workers().len() == b.workers().len(),
        undisturbed(base, c),
        undisturbed(base, d),
        unpaused(c.polls) == unpaused(d.polls),
        forall|j: int|
            0 <= j < c.spawns().len() && j < d.spawns().len() ==> (#[trigger] c.spawns()[j]).3 == (
            #[trigger] d.spawns()[j]).3,
    ensures
        c.spawns().len() == d.spawns().len(),
        forall|j: int|
            0 <= j < c.spawns().len() ==> {
                let x = #[trigger] c.spawns()[j];
                let y = #[trigger] d.spawns()[j];
                &&& x.0 == y.0
                &&& turn_of(x.1 as int, a.workers().len() as int) == turn_of(
                    y.1 as int,
                    b.workers().len() as int,
                )
            },
        c.outcome() == d.outcome(),
    decreases c.len() + d.len(),
{
    if c.len() > 0 {
        let i = c.len() - 1;
        assert(advances_with(a, c.tickets[i], c.polls[i], c.sends[i], c.steps[i]));
        lemma_shorter_course(a, c);
        lemma_undisturbed_before(base, c);
    }
    if d.len() > 0 {
        let i = d.len() - 1;
        assert(advances_with(b, d.tickets[i], d.polls[i], d.sends[i], d.steps[i]));
        lemma_shorter_course(b, d);
        lemma_undisturbed_before(base, d);
    }
    if c.len() > 0 && c.polls.last() is Pending {
        law_pauses_do_not_show(a, b, base, c.drop_last(), d);
    } else if d.len() > 0 && d.polls.last() is Pending {
        law_pauses_do_not_show(a, b, base, c, d.drop_last());
    } else if c.len() > 0 && d.len() > 0 {
        assert(unpaused(c.polls).drop_last() == unpaused(c.polls.drop_last()));
        assert(unpaused(d.polls).drop_last() == unpaused(d.polls.drop_last()));
        assert(unpaused(c.polls).last() == c.polls.last());
        assert(unpaused(d.polls).last() == d.polls.last());
        let cs = c.drop_last().spawns();
        let ds = d.drop_last().spawns();
        assert forall|j: int| 0 <= j < cs.len() && j < ds.len() implies (#[trigger] cs[j]).3 == (
        #[trigger] ds[j]).3 by {
            assert(cs[j] == c.spawns()[j]);
            assert(ds[j] == d.spawns()[j]);
        }
        law_pauses_do_not_show(a, b, base, c.drop_last(), d.drop_last());
        assert forall|j: int| 0 <= j < c.spawns().len() implies ({
            let x = #[trigger] c.spawns()[j];
            let y = #[trigger] d.spawns()[j];
            &&& x.0 == y.0
            &&& turn_of(x.1 as int, a.workers().len() as int) == turn_of(
                y.1 as int,
                b.workers().len() as int,
            )
        }) by {
            assert(c.spawns()[j].1 == ticket(base, j));
            assert(d.spawns()[j].1 == ticket(base, j));
            if j < cs.len() {
                assert(cs[j] == c.spawns()[j]);
                assert(ds[j] == d.spawns()[j]);
            }
        }
        if c.polls.last() is Item {
            assert(c.spawns()[cs.len() as int].3 == d.spawns()[ds.len() as int].3);
        }
    } else if c.len() > 0 {
        assert(unpaused(c.polls).len() > 0);
    } else if d.len() > 0 {
        assert(unpaused(d.polls).len() > 0);
    }
}

/// Nobody spawned in between up to any point.
proof fn lemma_undisturbed_before<F, SE, S>(base: usize, course: Course<F, SE, S>)
    requires
        undisturbed(base, course),
        course.len() > 0,
    ensures
        undisturbed(base, course.drop_last()),
{
    let before = course.drop_last().spawns();
    assert forall|j: int| 0 <= j < before.len() implies (#[trigger] before[j]).1 == ticket(
        base,
        j,
    ) by {
        assert(before[j] == course.spawns()[j]);
    }
}

/// What a spawner does after each poll of its stream, whatever pool it spawns onto: it waits for a
/// stream that is not ready, resolves well when the stream ends and to the stream's error when it
/// fails. A future goes to a worker of the pool, by a ticket drawn from its counter; the spawner goes
/// on with the stream if the worker takes it, and resolves to the worker's error if not.
pub proof fn law_advance<St, F, SE, S>(
    spawner: Spawner<St>,
    polled: StreamPoll<F, SE>,
    send: S,
    step: SpawnerStep<SE>,
) where S: FnOnce(&WorkerHandle, F) -> Result<(), SpawnError>
    requires
        call_ensures(Spawner::<St>::advance::<F, SE, S>, (&spawner, polled, send), step),
    ensures
        polled is Pending ==> step is Pending,
        polled is Ended ==> step == SpawnerStep::<SE>::Ready(Ok(())),
        polled matches StreamPoll::Failed(e) ==> step == SpawnerStep::<SE>::Ready(
            Err(StreamSpawnError::Stream(e)),
        ),
        polled matches StreamPoll::Item(future) ==> exists|t: usize, sent: Result<(), SpawnError>|
            {
                &&& #[trigger] drawn(*spawner.handle.counter(), t)
                &&& #[trigger] call_ensures(
                    send,
                    (
                        &spawner.handle.workers()[t as int % spawner.handle.workers().len() as int],
                        future,
                    ),
                    sent,
                )
                &&& sent is Ok ==> step is PollStream
                &&& sent matches Err(e) ==> step == SpawnerStep::<SE>::Ready(
                    Err(StreamSpawnError::Spawn(e)),
                )
            },
{
    let t = choose|t: usize| #[trigger] advances_with(spawner.handle, t, polled, send, step);
    assert(advances_with(spawner.handle, t, polled, send, step));
    if let StreamPoll::Item(future) = polled {
        let sent = choose|sent: Result<(), SpawnError>| #[trigger]
            call_ensures(send, (&spawner.handle.worker_of(t), future), sent) && step == step_after::<
                SE,
            >(sent);
        assert(call_ensures(send, (&spawner.handle.worker_of(t), future), sent));
    }
}

/// After a future was sent, the spawner goes on with the stream exactly if the worker took it, and
/// resolves to the worker's error otherwise.
pub proof fn law_after_spawn<SE>(sent: Result<(), SpawnError>, step: SpawnerStep<SE>)
    requires
        call_ensures(after_spawn::<SE>, (sent,), step),
    ensures
        sent is Ok <==> step is PollStream,
        sent matches Err(e) ==> step == SpawnerStep::<SE>::Ready(Err(StreamSpawnError::Spawn(e))),
{
}

/// An error of the stream is passed on as such.
pub proof fn law_stream_error<SE>(e: SE, error: StreamSpawnError<SE>)
    requires
        call_ensures(StreamSpawnError::<SE>::from, (e,), error),
    ensures
        error == StreamSpawnError::Stream(e),
{
}

/// The first step that resolves decides on the outcome, and without one there is none.
proof fn lemma_outcome<F, SE, S>(course: Course<F, SE, S>, i: int)
    requires
        course.polls.len() == course.steps.len(),
        0 <= i <= course.len(),
        forall|j: int| 0 <= j < i ==> !(#[trigger] course.steps[j] is Ready),
        i < course.len() ==> course.steps[i] is Ready,
    ensures
        i == course.len() ==> course.outcome() is None,
        i < course.len() ==> course.outcome() == Some(course.steps[i]->Ready_0),
    decreases course.len(),
{
    if course.len() > 0 {
        let rest = course.drop_last();
        assert forall|j: int| 0 <= j < i && j < rest.len() implies !(#[trigger] rest.steps[j]
            is Ready) by {
            assert(rest.steps[j] == course.steps[j]);
        }
        if i < course.len() - 1 {
            assert(rest.steps[i] == course.steps[i]);
            lemma_outcome(rest, i);
        } else {
            lemma_outcome(rest, rest.len() as int);
        }
    }
}

/// A spawner resolves well when its stream ends, to the stream's error when it fails, and to the
/// worker's error when a future is refused, provided that every poll before found nothing ready or
/// yielded a future that was taken. As long as only such polls were made it does not resolve.
pub proof fn law_course_resolves<F, SE, S>(handle: Handle, course: Course<F, SE, S>, i: int) where
    S: FnOnce(&WorkerHandle, F) -> Result<(), SpawnError>,

    requires
        is_course(handle, course),
        0 <= i <= course.len(),
        forall|j: int|
            0 <= j < i ==> (#[trigger] course.polls[j] is Pending) || (course.polls[j] is Item
                && course.steps[j] is PollStream),
    ensures
        i == course.len() ==> course.outcome() is None,
        i < course.len() && course.polls[i] is Ended ==> course.outcome() == Some(
            Ok::<(), StreamSpawnError<SE>>(()),
        ),
        i < course.len() ==> (course.polls[i] matches StreamPoll::Failed(e) ==> course.outcome()
            == Some(Err::<(), StreamSpawnError<SE>>(StreamSpawnError::Stream(e)))),
        i < course.len() && course.polls[i] is Item && !(course.steps[i] is PollStream) ==> {
            &&& course.outcome() matches Some(Err(StreamSpawnError::Spawn(_)))
            &&& course.steps[i] == SpawnerStep::Ready(course.outcome()->0)
        },
{
    assert forall|j: int| 0 <= j < i implies !(#[trigger] course.steps[j] is Ready) by {
        assert(course.polls[j] is Pending || course.polls[j] is Item);
        assert(advances_with(
            handle,
            course.tickets[j],
            course.polls[j],
            course.sends[j],
            course.steps[j],
        ));
    }
    if i < course.len() {
        assert(advances_with(
            handle,
            course.tickets[i],
            course.polls[i],
            course.sends[i],
            course.steps[i],
        ));
        if course.steps[i] is Ready {
            lemma_outcome(course, i);
            if let StreamPoll::Item(future) = course.polls[i] {
                let sent = choose|sent: Result<(), SpawnError>| #[trigger]
                    call_ensures(
                        course.sends[i],
                        (&handle.worker_of(course.tickets[i]), future),
                        sent,
                    ) && course.steps[i] == step_after::<SE>(sent);
                assert(course.steps[i] == step_after::<SE>(sent));
            }
        }
    } else {
        lemma_outcome(course, i);
    }
}

/// How many of the polls yielded a future.
pub open spec fn items<F, SE>(polls: Seq<StreamPoll<F, SE>>) -> nat {
    polls.filter(|p: StreamPoll<F, SE>| p is Item).len()
}

/// Every future that the stream yields is spawned, once and in order: there are as many spawns as the
/// stream yielded futures, and a future has as many spawns before it as it had futures before it.
pub proof fn law_every_future_is_spawned<F, SE, S>(course: Course<F, SE, S>, i: int)
    requires
        course.polls.len() == course.tickets.len() == course.sends.len() == course.steps.len(),
        0 <= i < course.len(),
    ensures
        course.spawns().len() == items(course.polls),
        course.polls[i] matches StreamPoll::Item(future) ==> {
            let j = items(course.polls.take(i)) as int;
            &&& j < course.spawns().len()
            &&& course.spawns()[j] == (
                future,
                course.tickets[i],
                course.sends[i],
                course.steps[i],
            )
        },
    decreases course.len(),
{
    reveal(Seq::filter);
    let pred = |p: StreamPoll<F, SE>| p is Item;
    let rest = course.drop_last();
    if rest.len() > 0 {
        law_every_future_is_spawned(rest, if i < rest.len() {
            i
        } else {
            0
        });
    } else {
        assert(rest.polls.filter(pred).len() == 0);
        assert(items(rest.polls) == 0);
        assert(rest.spawns().len() == 0);
    }
    assert(course.polls.drop_last() == rest.polls);
    if i < rest.len() {
        assert(rest.polls.take(i) == course.polls.take(i));
    } else {
        assert(course.polls.take(i) == rest.polls);
    }
}

} // verus!

//! How a pool is shut down.

use crate::worker::{closing, law_runs_until_idle_unless_forced, WorkerStep};
use tokio::sync::oneshot::Sender;
use vstd::prelude::*;

verus! {

/// A worker thread as the pool keeps it: the trigger of its exit signal, and what the thread can
/// be joined with.
pub type Thread<J> = (Sender<bool>, J);

/// The exit signal of one worker.
pub struct ExitSignal {
    /// The trigger that reaches the worker.
    pub trigger: Sender<bool>,
    /// Whether the worker leaves its unfinished futures.
    pub force_exit: bool,
}

impl ExitSignal {
    /// Sends the signal through its own trigger. If the worker is gone, the flag comes back.
    pub fn send(self) -> (sent: Result<(), bool>)
        ensures
            call_ensures(Sender::<bool>::send, (self.trigger, self.force_exit), sent),
            sent matches Err(flag) ==> flag == self.force_exit,
    {
        self.trigger.send(self.force_exit)
    }
}

/// What became of the step that was taken last.
pub enum StopEvent<E> {
    /// Nothing has been done yet.
    Begin,
    /// An exit signal was sent, or the worker was already gone.
    Signalled(Result<(), bool>),
    /// A thread was joined. If it panicked, the error is what it panicked with.
    Joined(Result<(), E>),
}

/// Why a pool could not be shut down cleanly.
pub enum StopFailure<E> {
    /// A worker was gone before its exit signal was sent.
    Signal(bool),
    /// A worker panicked.
    Join(E),
}

impl<E> StopFailure<E> {
    /// What the panic says of it, in front of what came back from the worker.
    pub fn message(&self) -> (message: &'static str)
        ensures
            message == match *self {
                StopFailure::Signal(_) => "oneshot::Sender::Send",
                StopFailure::Join(_) => "JoinHandle::join",
            },
    {
        match self {
            StopFailure::Signal(_) => "oneshot::Sender::Send",
            StopFailure::Join(_) => "JoinHandle::join",
        }
    }
}

/// What is done to shut down a pool.
pub enum StopAction<J> {
    /// Send the exit signal.
    Signal(ExitSignal),
    /// Join the thread.
    Join(J),
}

/// One step of the shutdown.
pub enum StopStep<J, E> {
    /// Do something, and report what became of it.
    Act(StopAction<J>),
    /// Panic for the given reason.
    Panic(StopFailure<E>),
    /// The pool is shut down.
    Finished,
}

/// The failure that an event reports. A thread that panics already does not panic again.
pub open spec fn failure<E>(event: StopEvent<E>, panicking: bool) -> Option<StopFailure<E>> {
    if panicking {
        None
    } else {
        match event {
            StopEvent::Signalled(Err(flag)) => Some(StopFailure::Signal(flag)),
            StopEvent::Joined(Err(e)) => Some(StopFailure::Join(e)),
            _ => None,
        }
    }
}

/// The exit signals to be sent, in order.
pub open spec fn signals<J>(threads: Seq<Thread<J>>, force_exit: bool) -> Seq<StopAction<J>> {
    Seq::new(
        threads.len(),
        |i: int| StopAction::Signal(ExitSignal { trigger: threads[i].0, force_exit }),
    )
}

/// The threads to be joined, in order.
pub open spec fn joins<J>(handles: Seq<J>) -> Seq<StopAction<J>> {
    Seq::new(handles.len(), |i: int| StopAction::Join(handles[i]))
}

/// The join handles of the threads.
pub open spec fn join_handles<J>(threads: Seq<Thread<J>>) -> Seq<J> {
    Seq::new(threads.len(), |i: int| threads[i].1)
}

/// What shutting down a pool takes, as long as nothing fails: every worker gets its exit signal,
/// and only then are the threads joined.
pub open spec fn stop_actions<J>(threads: Seq<Thread<J>>, force_exit: bool) -> Seq<StopAction<J>> {
    signals(threads, force_exit) + joins(join_handles(threads))
}

/// The course of a shutdown.
///
/// [`Shutdown::next`] says what is to be done next, given what became of the step before.
pub struct Shutdown<J> {
    threads: Vec<Thread<J>>,
    handles: Vec<J>,
    force_exit: bool,
}

impl<J> Shutdown<J> {
    /// What is left to be done, as long as nothing fails.
    pub closed spec fn left(self) -> Seq<StopAction<J>> {
        signals(self.threads@, self.force_exit) + joins(self.handles@ + join_handles(self.threads@))
    }

    /// Whether `step` is taken after the given event, which leaves the shutdown as `after`. After a
    /// failure nothing else is done.
    pub open spec fn goes_on<E>(
        self,
        event: StopEvent<E>,
        panicking: bool,
        step: StopStep<J, E>,
        after: Self,
    ) -> bool {
        match failure(event, panicking) {
            Some(reason) => {
                &&& step == StopStep::<J, E>::Panic(reason)
                &&& after.left() == Seq::<StopAction<J>>::empty()
            },
            None => if self.left().len() == 0 {
                &&& step == StopStep::<J, E>::Finished
                &&& after == self
            } else {
                &&& step == StopStep::<J, E>::Act(self.left()[0])
                &&& after.left() == self.left().drop_first()
            },
        }
    }

    /// The shutdown of a pool with the given threads.
    pub(crate) fn new(threads: Vec<Thread<J>>, force_exit: bool) -> (shutdown: Self)
        ensures
            shutdown.left() == stop_actions(threads@, force_exit),
    {
        let handles: Vec<J> = Vec::new();
        assert(handles@ + join_handles(threads@) == join_handles(threads@));
        Shutdown { threads, handles, force_exit }
    }

    /// The next step, given what became of the step before and whether the thread that shuts the
    /// pool down is panicking. After a failure nothing else is done: the remaining triggers and
    /// join handles are dropped.
    pub fn next<E>(&mut self, event: StopEvent<E>, panicking: bool) -> (step: StopStep<J, E>)
        ensures
            old(self).goes_on(event, panicking, step, *final(self)),
    {
        let failed = if panicking {
            None
        } else {
            match event {
                StopEvent::Signalled(Err(flag)) => Some(StopFailure::Signal(flag)),
                StopEvent::Joined(Err(e)) => Some(StopFailure::Join(e)),
                _ => None,
            }
        };
        if let Some(reason) = failed {
            self.threads.clear();
            self.handles.clear();
            assert(self.left() == Seq::<StopAction<J>>::empty());
            return StopStep::Panic(reason);
        }
        if self.threads.len() > 0 {
            let (trigger, handle) = self.threads.remove(0);
            self.handles.push(handle);
            assert(self.left() == old(self).left().drop_first());
            StopStep::Act(
                StopAction::Signal(ExitSignal { trigger, force_exit: self.force_exit }),
            )
        } else if self.handles.len() > 0 {
            let handle = self.handles.remove(0);
            assert(self.left() == old(self).left().drop_first());
            StopStep::Act(StopAction::Join(handle))
        } else {
            StopStep::Finished
        }
    }
}

/// While nothing fails, a shutdown does what it has to do, one action after the other.
proof fn lemma_course<J, E>(
    course: Seq<Shutdown<J>>,
    events: Seq<StopEvent<E>>,
    panicking: bool,
    steps: Seq<StopStep<J, E>>,
    k: int,
)
    requires
        events.len() == steps.len(),
        course.len() == steps.len() + 1,
        forall|i: int|
            0 <= i < steps.len() ==> #[trigger] course[i].goes_on(
                events[i],
                panicking,
                steps[i],
                course[i + 1],
            ),
        0 <= k <= steps.len(),
        forall|i: int| 0 <= i < k ==> failure(#[trigger] events[i], panicking) is None,
    ensures
        course[k].left() == if k < course[0].left().len() {
            course[0].left().skip(k)
        } else {
            Seq::<StopAction<J>>::empty()
        },
    decreases k,
{
    if k > 0 {
        lemma_course(course, events, panicking, steps, k - 1);
        assert(course[k - 1].goes_on(events[k - 1], panicking, steps[k - 1], course[k - 1 + 1]));
    }
    assert(course[k].left() == if k < course[0].left().len() {
        course[0].left().skip(k)
    } else {
        Seq::<StopAction<J>>::empty()
    });
}

/// A shutdown goes through all the workers, signals first, up to the first failure, at which it
/// panics. A shutdown without a failure ends with every worker told and every thread joined.
pub proof fn law_course_of_shutdown<J, E>(
    threads: Seq<Thread<J>>,
    force_exit: bool,
    course: Seq<Shutdown<J>>,
    events: Seq<StopEvent<E>>,
    panicking: bool,
    steps: Seq<StopStep<J, E>>,
    k: int,
)
    requires
        events.len() == steps.len(),
        course.len() == steps.len() + 1,
        course[0].left() == stop_actions(threads, force_exit),
        forall|i: int|
            0 <= i < steps.len() ==> #[trigger] course[i].goes_on(
                events[i],
                panicking,
                steps[i],
                course[i + 1],
            ),
        0 <= k < steps.len(),
        forall|i: int| 0 <= i < k ==> failure(#[trigger] events[i], panicking) is None,
    ensures
        steps[k] == match failure(events[k], panicking) {
            Some(reason) => StopStep::Panic(reason),
            None => if k < stop_actions(threads, force_exit).len() {
                StopStep::Act(stop_actions(threads, force_exit)[k])
            } else {
                StopStep::Finished
            },
        },
{
    lemma_course(course, events, panicking, steps, k);
    assert(course[k].goes_on(events[k], panicking, steps[k], course[k + 1]));
}

/// Each thread is signalled once and joined once, in the order of the workers, and all of them are
/// told the same.
pub proof fn law_every_thread_is_stopped<J>(threads: Seq<Thread<J>>, force_exit: bool, i: int)
    requires
        0 <= i < threads.len(),
    ensures
        stop_actions(threads, force_exit).len() == 2 * threads.len(),
        stop_actions(threads, force_exit)[i] == StopAction::<J>::Signal(
            ExitSignal { trigger: threads[i].0, force_exit },
        ),
        stop_actions(threads, force_exit)[threads.len() + i] == StopAction::Join(threads[i].1),
{
}

/// No thread is joined before every worker has been told to exit.
pub proof fn law_signals_come_before_joins<J>(
    threads: Seq<Thread<J>>,
    force_exit: bool,
    i: int,
    j: int,
)
    requires
        0 <= i < stop_actions(threads, force_exit).len(),
        0 <= j < stop_actions(threads, force_exit).len(),
        stop_actions(threads, force_exit)[i] is Signal,
        stop_actions(threads, force_exit)[j] is Join,
    ensures
        i < j,
{
}

/// A shutdown on idle lets every worker run its futures to completion, and any other shutdown lets
/// none: so the signal that a worker gets decides what it does.
pub proof fn law_workers_finish_on_idle_only<J, H>(
    threads: Seq<Thread<J>>,
    force_exit: bool,
    i: int,
    before_stop: Option<H>,
)
    requires
        0 <= i < threads.len(),
    ensures
        stop_actions(threads, force_exit)[i] matches StopAction::Signal(signal) && (closing(
            signal.force_exit,
            before_stop,
        ).contains(WorkerStep::RunUntilIdle) <==> !force_exit),
{
    law_every_thread_is_stopped(threads, force_exit, i);
    law_runs_until_idle_unless_forced(force_exit, before_stop);
}

/// A pool that is dropped while its thread panics does not panic again, whatever becomes of its
/// workers.
pub proof fn law_no_second_panic<E>(event: StopEvent<E>)
    ensures
        failure(event, true) is None,
{
}

/// A thread that is not panicking fails over a signal that did not arrive and over a worker that
/// panicked, with what came back, and over nothing else.
pub proof fn law_what_fails<E>(event: StopEvent<E>)
    ensures
        match event {
            StopEvent::Begin => failure(event, false) is None,
            StopEvent::Signalled(Ok(())) => failure(event, false) is None,
            StopEvent::Joined(Ok(())) => failure(event, false) is None,
            StopEvent::Signalled(Err(flag)) => failure(event, false) == Some(
                StopFailure::<E>::Signal(flag),
            ),
            StopEvent::Joined(Err(e)) => failure(event, false) == Some(StopFailure::Join(e)),
        },
{
}

/// A shutdown panics exactly over a failure, and leaves everything undone then.
pub proof fn law_failure_ends_the_shutdown<J, E>(
    before: Shutdown<J>,
    event: StopEvent<E>,
    step: StopStep<J, E>,
    after: Shutdown<J>,
)
    requires
        before.goes_on(event, false, step, after),
    ensures
        step is Panic <==> (event matches StopEvent::Signalled(Err(_))) || (
        event matches StopEvent::Joined(Err(_))),
        event matches StopEvent::Signalled(Err(flag)) ==> step == StopStep::<J, E>::Panic(
            StopFailure::Signal(flag),
        ),
        event matches StopEvent::Joined(Err(e)) ==> step == StopStep::<J, E>::Panic(
            StopFailure::Join(e),
        ),
        step is Panic ==> after.left().len() == 0,
        step is Finished ==> before.left().len() == 0 && after == before,
        step matches StopStep::Act(action) ==> before.left() == seq![action] + after.left(),
{
    if let StopStep::Act(action) = step {
        assert(before.left() == seq![action] + after.left());
    }
}

/// While the thread panics already, no event makes the shutdown panic or leaves out an action.
pub proof fn law_panicking_thread_goes_on<J, E>(
    before: Shutdown<J>,
    event: StopEvent<E>,
    step: StopStep<J, E>,
    after: Shutdown<J>,
)
    requires
        before.goes_on(event, true, step, after),
    ensures
        !(step is Panic),
        step is Finished <==> before.left().len() == 0,
        step matches StopStep::Act(action) ==> before.left() == seq![action] + after.left(),
{
    if let StopStep::Act(action) = step {
        assert(before.left() == seq![action] + after.left());
    }
}

} // verus!

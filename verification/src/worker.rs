//! What a worker thread does, step by step.

use vstd::prelude::*;

verus! {

/// One step of a worker thread.
pub enum WorkerStep<H> {
    /// Call the hook that was set for when a thread has started.
    AfterStart(H),
    /// Create the thread's own single-threaded runtime.
    StartRuntime,
    /// Send a handle to that runtime to the thread that builds the pool.
    PublishHandle,
    /// Run futures until the exit signal arrives, and pass it to [`Worker::exit`], or until the pool
    /// is gone, and call [`Worker::abandoned`].
    AwaitExit,
    /// Run futures until none is left.
    RunUntilIdle,
    /// Call the hook that was set for when a thread is about to stop.
    BeforeStop(H),
    /// The thread is done.
    Finished,
}

/// How far a worker thread has come.
enum Stage {
    Opening,
    Publishing,
    Waiting,
    Running,
    Closing,
}

/// The course of a worker thread.
///
/// [`Worker::next`] says what the thread does next. The exit signal, once it has arrived, is
/// handed over with [`Worker::exit`].
pub struct Worker<H> {
    stage: Stage,
    after_start: Option<H>,
    before_stop: Option<H>,
}

/// The steps up to the wait for the exit signal.
pub open spec fn opening<H>(after_start: Option<H>) -> Seq<WorkerStep<H>> {
    (match after_start {
        Some(hook) => seq![WorkerStep::AfterStart(hook)],
        None => seq![],
    }) + seq![WorkerStep::StartRuntime, WorkerStep::PublishHandle]
}

/// The steps that follow an exit signal: a forced exit leaves out what is still running.
pub open spec fn closing<H>(force_exit: bool, before_stop: Option<H>) -> Seq<WorkerStep<H>> {
    (if force_exit {
        seq![]
    } else {
        seq![WorkerStep::RunUntilIdle]
    }) + (match before_stop {
        Some(hook) => seq![WorkerStep::BeforeStop(hook)],
        None => seq![],
    })
}

impl<H> Worker<H> {
    /// The steps that are certain by now. More follow while [`Worker::exited`] does not hold.
    pub closed spec fn todo(self) -> Seq<WorkerStep<H>> {
        match self.stage {
            Stage::Opening => opening(self.after_start),
            Stage::Publishing => seq![WorkerStep::PublishHandle],
            Stage::Waiting => seq![],
            Stage::Running => closing(false, self.before_stop),
            Stage::Closing => closing(true, self.before_stop),
        }
    }

    /// Whether the exit signal has arrived.
    pub closed spec fn exited(self) -> bool {
        self.stage is Running || self.stage is Closing
    }

    /// Whether the thread waits for the exit signal.
    pub open spec fn waiting(self) -> bool {
        self.todo().len() == 0 && !self.exited()
    }

    /// The hook that is still to be called before the thread stops.
    pub closed spec fn stop_hook(self) -> Option<H> {
        self.before_stop
    }

    /// Whether the thread takes the given step next, and has come as far as `after` then.
    pub open spec fn goes_on(self, step: WorkerStep<H>, after: Self) -> bool {
        if self.todo().len() > 0 {
            &&& step == self.todo()[0]
            &&& after.todo() == self.todo().drop_first()
            &&& after.exited() == self.exited()
            &&& !self.exited() ==> after.stop_hook() == self.stop_hook()
        } else {
            &&& step == if self.exited() {
                WorkerStep::<H>::Finished
            } else {
                WorkerStep::<H>::AwaitExit
            }
            &&& after == self
        }
    }

    /// Whether the thread has come as far as `after` once it is told to exit. Only a thread that
    /// waits for the exit signal takes it.
    pub open spec fn is_told(self, force_exit: bool, after: Self) -> bool {
        if self.waiting() {
            &&& after.exited()
            &&& after.todo() == closing(force_exit, self.stop_hook())
            &&& after.stop_hook() == self.stop_hook()
        } else {
            after == self
        }
    }

    /// A thread that has just been started.
    pub fn new(after_start: Option<H>, before_stop: Option<H>) -> (worker: Self)
        ensures
            worker.todo() == opening(after_start),
            worker.stop_hook() == before_stop,
            !worker.exited(),
    {
        Worker { stage: Stage::Opening, after_start, before_stop }
    }

    /// The next step of the thread.
    pub fn next(&mut self) -> (step: WorkerStep<H>)
        ensures
            old(self).goes_on(step, *final(self)),
    {
        match self.stage {
            Stage::Opening => match self.after_start.take() {
                Some(hook) => {
                    let step = WorkerStep::AfterStart(hook);
                    assert(self.todo() == old(self).todo().drop_first());
                    step
                },
                None => {
                    self.stage = Stage::Publishing;
                    assert(self.todo() == old(self).todo().drop_first());
                    WorkerStep::StartRuntime
                },
            },
            Stage::Publishing => {
                self.stage = Stage::Waiting;
                assert(self.todo() == old(self).todo().drop_first());
                WorkerStep::PublishHandle
            },
            Stage::Waiting => WorkerStep::AwaitExit,
            Stage::Running => {
                self.stage = Stage::Closing;
                assert(self.todo() == old(self).todo().drop_first());
                WorkerStep::RunUntilIdle
            },
            Stage::Closing => match self.before_stop.take() {
                Some(hook) => {
                    assert(self.todo() == old(self).todo().drop_first());
                    WorkerStep::BeforeStop(hook)
                },
                None => WorkerStep::Finished,
            },
        }
    }

    /// Takes the exit signal that the thread waits for. It has no effect at any other time.
    pub fn exit(&mut self, force_exit: bool)
        ensures
            old(self).is_told(force_exit, *final(self)),
    {
        if let Stage::Waiting = self.stage {
            self.stage = if force_exit {
                Stage::Closing
            } else {
                Stage::Running
            };
        }
    }

    /// Takes the news that no exit signal will come, because the pool is gone without having sent
    /// one: the thread that waits for it leaves its unfinished futures, as after a forced exit, and
    /// still calls its hook before it stops. It has no effect at any other time.
    pub fn abandoned(&mut self)
        ensures
            old(self).is_told(true, *final(self)),
    {
        self.exit(true)
    }
}

/// The hook for started threads runs before the thread does any work.
pub proof fn law_after_start_comes_first<H>(hook: H)
    ensures
        opening(Some(hook))[0] == WorkerStep::AfterStart(hook),
        forall|i: int|
            1 <= i < opening(Some(hook)).len() ==> !(#[trigger] opening(Some(hook))[i]
                is AfterStart),
{
}

/// The hook for stopping threads runs exactly once, as the last thing a thread does, whichever
/// way the pool is shut down.
pub proof fn law_before_stop_comes_last<H>(force_exit: bool, hook: H)
    ensures
        closing(force_exit, Some(hook)).last() == WorkerStep::BeforeStop(hook),
        forall|i: int|
            0 <= i < closing(force_exit, Some(hook)).len() - 1 ==> !(#[trigger] closing(
                force_exit,
                Some(hook),
            )[i] is BeforeStop),
{
}

/// A thread whose pool is gone without an exit signal calls its hook before it stops, and does
/// nothing else.
pub proof fn law_before_stop_without_signal<H>(waiting: Worker<H>, after: Worker<H>, hook: H)
    requires
        waiting.waiting(),
        waiting.stop_hook() == Some(hook),
        waiting.is_told(true, after),
    ensures
        after.todo() == seq![WorkerStep::BeforeStop(hook)],
        after.exited(),
{
    assert(closing(true, Some(hook)) == seq![WorkerStep::BeforeStop(hook)]);
}

/// A thread runs its futures to completion after the exit signal if and only if the exit is not
/// forced.
pub proof fn law_runs_until_idle_unless_forced<H>(force_exit: bool, before_stop: Option<H>)
    ensures
        closing(force_exit, before_stop).contains(WorkerStep::RunUntilIdle) <==> !force_exit,
        !force_exit ==> closing(force_exit, before_stop)[0] == WorkerStep::<H>::RunUntilIdle,
{
    if !force_exit {
        assert(closing(force_exit, before_stop)[0] == WorkerStep::<H>::RunUntilIdle);
    }
}

/// What a thread does follows from what it has to do: step by step it does just that, and then it
/// waits, or is finished.
proof fn lemma_course<H>(course: Seq<Worker<H>>, steps: Seq<WorkerStep<H>>, k: int)
    requires
        course.len() == steps.len() + 1,
        forall|i: int|
            0 <= i < steps.len() ==> #[trigger] course[i].goes_on(steps[i], course[i + 1]),
        0 <= k <= steps.len(),
    ensures
        course[k].exited() == course[0].exited(),
        course[k].todo() == if k < course[0].todo().len() {
            course[0].todo().skip(k)
        } else {
            Seq::<WorkerStep<H>>::empty()
        },
        !course[0].exited() ==> course[k].stop_hook() == course[0].stop_hook(),
    decreases k,
{
    if k > 0 {
        lemma_course(course, steps, k - 1);
        assert(course[k - 1].goes_on(steps[k - 1], course[k - 1 + 1]));
    } else {
        assert(course[0].todo().skip(0) == course[0].todo());
    }
    assert(course[k].todo() == if k < course[0].todo().len() {
        course[0].todo().skip(k)
    } else {
        Seq::<WorkerStep<H>>::empty()
    });
}

/// The life of a thread before the exit signal: it runs the hook for started threads, starts its
/// runtime, publishes its handle, and then waits.
pub proof fn law_course_before_exit<H>(
    course: Seq<Worker<H>>,
    steps: Seq<WorkerStep<H>>,
    after_start: Option<H>,
    k: int,
)
    requires
        course.len() == steps.len() + 1,
        course[0].todo() == opening(after_start),
        !course[0].exited(),
        forall|i: int|
            0 <= i < steps.len() ==> #[trigger] course[i].goes_on(steps[i], course[i + 1]),
        0 <= k < steps.len(),
    ensures
        steps[k] == if k < opening(after_start).len() {
            opening(after_start)[k]
        } else {
            WorkerStep::AwaitExit
        },
        k >= opening(after_start).len() ==> course[k].waiting() && course[k].stop_hook()
            == course[0].stop_hook(),
{
    lemma_course(course, steps, k);
    assert(course[k].goes_on(steps[k], course[k + 1]));
}

/// The life of a thread after the exit signal: unless the exit is forced, it runs its futures to
/// completion; it runs the hook for stopping threads, and then it is finished.
pub proof fn law_course_after_exit<H>(
    waiting: Worker<H>,
    force_exit: bool,
    course: Seq<Worker<H>>,
    steps: Seq<WorkerStep<H>>,
    k: int,
)
    requires
        waiting.waiting(),
        course.len() == steps.len() + 1,
        waiting.is_told(force_exit, course[0]),
        forall|i: int|
            0 <= i < steps.len() ==> #[trigger] course[i].goes_on(steps[i], course[i + 1]),
        0 <= k < steps.len(),
    ensures
        steps[k] == if k < closing(force_exit, waiting.stop_hook()).len() {
            closing(force_exit, waiting.stop_hook())[k]
        } else {
            WorkerStep::Finished
        },
{
    lemma_course(course, steps, k);
    assert(course[k].goes_on(steps[k], course[k + 1]));
}

/// The whole life of a thread. It calls the hook for started threads if there is one, starts its
/// runtime, publishes its handle and waits. Once it is told to exit it runs its futures to completion,
/// unless the exit is forced, calls the hook for stopping threads if there is one, and is finished.
pub proof fn law_whole_life<H>(
    after_start: Option<H>,
    before_stop: Option<H>,
    before: Seq<Worker<H>>,
    steps: Seq<WorkerStep<H>>,
    force_exit: bool,
    after: Seq<Worker<H>>,
    last_steps: Seq<WorkerStep<H>>,
)
    requires
        before.len() == steps.len() + 1,
        call_ensures(Worker::<H>::new, (after_start, before_stop), before[0]),
        forall|i: int|
            0 <= i < steps.len() ==> #[trigger] before[i].goes_on(steps[i], before[i + 1]),
        steps.len() >= 3,
        after.len() == last_steps.len() + 1,
        before.last().is_told(force_exit, after[0]),
        forall|i: int|
            0 <= i < last_steps.len() ==> #[trigger] after[i].goes_on(last_steps[i], after[i + 1]),
    ensures
        ({
            let hooks: int = if after_start is Some {
                1
            } else {
                0
            };
            &&& after_start matches Some(hook) ==> steps[0] == WorkerStep::AfterStart(hook)
            &&& steps[hooks] is StartRuntime
            &&& steps[hooks + 1] is PublishHandle
            &&& forall|k: int| hooks + 2 <= k < steps.len() ==> #[trigger] steps[k] is AwaitExit
        }),
        ({
            let idle: int = if force_exit {
                0
            } else {
                1
            };
            let end: int = if before_stop is Some {
                idle + 1
            } else {
                idle
            };
            &&& !force_exit && last_steps.len() > 0 ==> last_steps[0] is RunUntilIdle
            &&& before_stop matches Some(hook) ==> (last_steps.len() > idle ==> last_steps[idle]
                == WorkerStep::BeforeStop(hook))
            &&& forall|k: int| end <= k < last_steps.len() ==> #[trigger] last_steps[k] is Finished
        }),
{
    let n = steps.len() as int;
    assert forall|k: int| 0 <= k < n implies #[trigger] steps[k] == (if k < opening(
        after_start,
    ).len() {
        opening(after_start)[k]
    } else {
        WorkerStep::AwaitExit
    }) by {
        law_course_before_exit(before, steps, after_start, k);
    }
    lemma_course(before, steps, n);
    assert(before.last().waiting());
    assert forall|k: int| 0 <= k < last_steps.len() implies #[trigger] last_steps[k] == (if k
        < closing(force_exit, before_stop).len() {
        closing(force_exit, before_stop)[k]
    } else {
        WorkerStep::Finished
    }) by {
        law_course_after_exit(before.last(), force_exit, after, last_steps, k);
    }
}

/// An exit signal does nothing to a thread that has steps to take first, or that has been told
/// already.
pub proof fn law_exit_only_while_waiting<H>(worker: Worker<H>, force_exit: bool, after: Worker<H>)
    requires
        worker.is_told(force_exit, after),
        worker.todo().len() > 0 || worker.exited(),
    ensures
        after == worker,
{
}

/// A thread knows its hooks from the start, and has not been told to exit.
pub proof fn law_new_worker<H>(
    after_start: Option<H>,
    before_stop: Option<H>,
    worker: Worker<H>,
)
    requires
        call_ensures(Worker::<H>::new, (after_start, before_stop), worker),
    ensures
        worker.stop_hook() == before_stop,
        !worker.exited(),
        after_start matches Some(hook) ==> worker.todo() == seq![
            WorkerStep::AfterStart(hook),
            WorkerStep::StartRuntime,
            WorkerStep::PublishHandle,
        ],
        after_start is None ==> worker.todo() == seq![
            WorkerStep::<H>::StartRuntime,
            WorkerStep::<H>::PublishHandle,
        ],
{
    if let Some(hook) = after_start {
        assert(opening(Some(hook)) == seq![
            WorkerStep::AfterStart(hook),
            WorkerStep::StartRuntime,
            WorkerStep::PublishHandle,
        ]);
    } else {
        assert(opening::<H>(None) == seq![
            WorkerStep::<H>::StartRuntime,
            WorkerStep::<H>::PublishHandle,
        ]);
    }
}

} // verus!

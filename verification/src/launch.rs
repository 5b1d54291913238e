//! How the threads of a pool are started.

use crate::builder::Builder;
use crate::handle::starts_at_zero;
use crate::naming::{law_names_differ, law_names_read_back, thread_name_of};
use crate::runtime::Runtime;
use crate::shutdown::Thread;
use crate::worker::{opening, Worker};
use std::sync::atomic::AtomicUsize;
use tokio::runtime::current_thread::Handle as WorkerHandle;
use tokio::sync::oneshot;
use vstd::prelude::*;

verus! {

/// A worker thread that is to be started.
pub struct WorkerPlan<H> {
    /// The name of the thread, unless it is left to the system.
    pub name: Option<String>,
    /// Where the exit signal arrives, for the thread to wait on.
    pub exit: oneshot::Receiver<bool>,
    /// What the thread does.
    pub worker: Worker<H>,
}

/// Whether one hook is a clone of the other.
pub open spec fn is_clone<H: Clone>(hook: Option<H>, copy: Option<H>) -> bool {
    match hook {
        Some(h) => copy is Some && cloned(h, copy->0),
        None => copy is None,
    }
}

/// Whether `plan` is the thread that `builder` asks for as the worker with the given index.
pub open spec fn is_plan<H: Clone>(builder: Builder<H>, index: int, plan: WorkerPlan<H>) -> bool {
    &&& match builder.prefix() {
        Some(prefix) => plan.name is Some && plan.name->0@ == thread_name_of(prefix@, index),
        None => plan.name is None,
    }
    &&& exists|hook: Option<H>|
        #[trigger] is_clone(builder.start_hook(), hook) && plan.worker.todo() == opening(hook)
    &&& is_clone(builder.stop_hook(), plan.worker.stop_hook())
    &&& !plan.worker.exited()
}

/// Whether the two are the ends of one channel, so that a signal of the trigger arrives at `exit`.
pub open spec fn is_channel(
    trigger: oneshot::Sender<bool>,
    exit: oneshot::Receiver<bool>,
) -> bool {
    call_ensures(oneshot::channel::<bool>, (), (trigger, exit))
}

/// What became of the thread that was to be started.
pub enum LaunchEvent<J, E> {
    /// It runs, and has sent the handle of its runtime.
    Started(J, WorkerHandle),
    /// The system could not start it.
    NotStarted(E),
    /// It was started, but is gone without having sent a handle.
    Lost,
}

/// What is done next to build a pool.
pub enum LaunchStep<'a, J, H, E> {
    /// Start another thread.
    Start(Launch<'a, J, H>, WorkerPlan<H>),
    /// The pool is ready to spawn futures.
    Ready(Runtime<J>),
    /// The pool could not be built.
    Failed(E),
    /// Panic, because a thread was lost.
    Panic,
}

/// The course of building a pool: a thread is being started, and the ones before it run.
pub struct Launch<'a, J, H> {
    builder: &'a Builder<H>,
    trigger: oneshot::Sender<bool>,
    threads: Vec<Thread<J>>,
    workers: Vec<WorkerHandle>,
}

impl<'a, J, H> Launch<'a, J, H> {
    /// There are fewer threads than the pool is to have.
    #[verifier::type_invariant]
    spec fn unfinished(self) -> bool {
        self.threads@.len() == self.workers@.len() < self.builder.workers()
    }

    /// The configuration of the pool.
    pub closed spec fn builder(self) -> Builder<H> {
        *self.builder
    }

    /// The trigger of the exit signal of the thread that is being started.
    pub closed spec fn trigger(self) -> oneshot::Sender<bool> {
        self.trigger
    }

    /// The threads that run, in the order in which they were started.
    pub closed spec fn threads(self) -> Seq<Thread<J>> {
        self.threads@
    }

    /// The handles that the threads have sent.
    pub closed spec fn workers(self) -> Seq<WorkerHandle> {
        self.workers@
    }

    /// Whether `after` is how building the pool goes on once the given thread runs.
    pub open spec fn goes_on(self, join: J, worker: WorkerHandle, after: Self) -> bool {
        &&& after.builder() == self.builder()
        &&& after.threads() == self.threads().push((self.trigger(), join))
        &&& after.workers() == self.workers().push(worker)
    }
}

impl<'a, J, H: Clone> Launch<'a, J, H> {
    /// Begins to build a pool.
    pub(crate) fn begin(builder: &'a Builder<H>) -> (begun: (Self, WorkerPlan<H>))
        requires
            builder.workers() > 0,
        ensures
            begun.0.builder() == *builder,
            begun.0.threads() == Seq::<Thread<J>>::empty(),
            begun.0.workers() == Seq::<WorkerHandle>::empty(),
            is_plan(*builder, 0, begun.1),
            is_channel(begun.0.trigger(), begun.1.exit),
    {
        let (trigger, plan) = builder.plan(0);
        (Launch { builder, trigger, threads: Vec::new(), workers: Vec::new() }, plan)
    }

    /// The next step, given what became of the thread that was to be started.
    pub fn step<E>(self, event: LaunchEvent<J, E>) -> (step: LaunchStep<'a, J, H, E>)
        ensures
            match event {
                LaunchEvent::Started(join, worker) => {
                    let threads = self.threads().push((self.trigger(), join));
                    let workers = self.workers().push(worker);
                    if threads.len() < self.builder().workers() {
                        step matches LaunchStep::Start(launch, plan) && {
                            &&& self.goes_on(join, worker, launch)
                            &&& is_plan(self.builder(), threads.len() as int, plan)
                            &&& is_channel(launch.trigger(), plan.exit)
                        }
                    } else {
                        step matches LaunchStep::Ready(runtime) && {
                            &&& runtime.threads() == threads
                            &&& runtime.pool().workers() == workers
                            &&& workers.len() == self.builder().workers()
                            &&& starts_at_zero(*runtime.pool().counter())
                        }
                    }
                },
                LaunchEvent::NotStarted(e) => step == LaunchStep::<'a, J, H, E>::Failed(e),
                LaunchEvent::Lost => step is Panic,
            },
    {
        proof {
            use_type_invariant(&self);
        }
        match event {
            LaunchEvent::Started(join, worker) => {
                let Launch { builder, trigger, threads, workers } = self;
                let mut threads = threads;
                let mut workers = workers;
                threads.push((trigger, join));
                workers.push(worker);
                let started: usize = threads.len();
                if started < builder.size() {
                    let (trigger, plan) = builder.plan(started);
                    LaunchStep::Start(Launch { builder, trigger, threads, workers }, plan)
                } else {
                    LaunchStep::Ready(Runtime::assemble(workers, threads))
                }
            },
            LaunchEvent::NotStarted(e) => LaunchStep::Failed(e),
            LaunchEvent::Lost => LaunchStep::Panic,
        }
    }
}

/// No two threads of a pool with a name prefix have the same name.
pub proof fn law_threads_have_different_names<H: Clone>(
    builder: Builder<H>,
    i: int,
    j: int,
    a: WorkerPlan<H>,
    b: WorkerPlan<H>,
)
    requires
        builder.prefix() is Some,
        0 <= i,
        0 <= j,
        i != j,
        is_plan(builder, i, a),
        is_plan(builder, j, b),
    ensures
        a.name->0@ != b.name->0@,
{
    law_names_differ(builder.prefix()->0@, i, j);
}

/// Building a pool keeps the threads and their handles in the order in which they were started, each
/// thread with the trigger that was made for it, and keeps to the configuration it began with.
pub proof fn law_course_of_launch<'a, J, H>(
    course: Seq<Launch<'a, J, H>>,
    joins: Seq<J>,
    workers: Seq<WorkerHandle>,
    k: int,
)
    requires
        joins.len() == workers.len(),
        course.len() == joins.len() + 1,
        course[0].threads() == Seq::<Thread<J>>::empty(),
        course[0].workers() == Seq::<WorkerHandle>::empty(),
        forall|i: int|
            0 <= i < joins.len() ==> #[trigger] course[i].goes_on(
                joins[i],
                workers[i],
                course[i + 1],
            ),
        0 <= k <= joins.len(),
    ensures
        course[k].builder() == course[0].builder(),
        course[k].threads() == Seq::new(k as nat, |i: int| (course[i].trigger(), joins[i])),
        course[k].workers() == workers.take(k),
    decreases k,
{
    if k > 0 {
        law_course_of_launch(course, joins, workers, k - 1);
        assert(course[k - 1].goes_on(joins[k - 1], workers[k - 1], course[k - 1 + 1]));
        assert(workers.take(k) == workers.take(k - 1).push(workers[k - 1]));
    } else {
        assert(workers.take(0) == Seq::<WorkerHandle>::empty());
    }
    assert(course[k].threads() == Seq::new(k as nat, |i: int| (course[i].trigger(), joins[i])));
}

/// Every thread of a pool gets the hooks that are set, and the name that its number gives, whichever
/// thread it is: it starts with its own clone of the start hook and stops with its own clone of the
/// stop hook, and hooks that are not set are not called.
pub proof fn law_every_thread_gets_the_hooks<H: Clone>(
    builder: Builder<H>,
    index: int,
    plan: WorkerPlan<H>,
)
    requires
        is_plan(builder, index, plan),
    ensures
        builder.stop_hook() matches Some(hook) ==> plan.worker.stop_hook() is Some && cloned(
            hook,
            plan.worker.stop_hook()->0,
        ),
        builder.stop_hook() is None ==> plan.worker.stop_hook() is None,
        builder.start_hook() matches Some(hook) ==> plan.worker.todo().len() == 3
            && plan.worker.todo()[0] is AfterStart && cloned(
            hook,
            plan.worker.todo()[0]->AfterStart_0,
        ) && plan.worker.todo()[1] is StartRuntime && plan.worker.todo()[2] is PublishHandle,
        builder.start_hook() is None ==> plan.worker.todo().len() == 2
            && plan.worker.todo()[0] is StartRuntime && plan.worker.todo()[1] is PublishHandle,
        !plan.worker.exited(),
        builder.prefix() is Some <==> plan.name is Some,
        builder.prefix() matches Some(prefix) ==> {
            let digits = plan.name->0@.skip(prefix@.len() as int);
            &&& plan.name->0@ == prefix@ + digits
            &&& index >= 0 ==> digits.len() > 0 && digits[0] != '0'
            &&& index >= 0 ==> forall|i: int|
                0 <= i < digits.len() ==> '0' <= #[trigger] digits[i] <= '9'
            &&& index >= 0 ==> digits.fold_left(
                0int,
                |acc: int, c: char| 10 * acc + (c as int - '0' as int),
            ) == index + 1
        },
{
    let hook = choose|hook: Option<H>|
        #[trigger] is_clone(builder.start_hook(), hook) && plan.worker.todo() == opening(hook);
    if let Some(prefix) = builder.prefix() {
        let digits = plan.name->0@.skip(prefix@.len() as int);
        law_names_read_back(prefix@, index);
        assert(plan.name->0@ == prefix@ + digits);
    }
}

/// Building a pool begins with the first thread: it has the hooks that are set, and the pool keeps the
/// other end of the channel that it waits on.
pub proof fn law_build<J, H: Clone>(builder: &Builder<H>, begun: (Launch<'_, J, H>, WorkerPlan<H>))
    requires
        call_ensures(Builder::<H>::build::<J>, (builder,), begun),
    ensures
        begun.0.builder() == *builder,
        begun.0.threads().len() == 0,
        begun.0.workers().len() == 0,
        call_ensures(oneshot::channel::<bool>, (), (begun.0.trigger(), begun.1.exit)),
        builder.stop_hook() matches Some(hook) ==> begun.1.worker.stop_hook() is Some && cloned(
            hook,
            begun.1.worker.stop_hook()->0,
        ),
        builder.start_hook() matches Some(hook) ==> begun.1.worker.todo().len() == 3
            && begun.1.worker.todo()[0] is AfterStart && cloned(
            hook,
            begun.1.worker.todo()[0]->AfterStart_0,
        ),
        is_plan(*builder, 0, begun.1),
{
    law_every_thread_gets_the_hooks(*builder, 0, begun.1);
}

/// Each thread that runs brings the pool one thread and one handle further, with the trigger that was
/// made for it. The pool is ready exactly when it has as many threads as it is to have; until then
/// the next thread is started, with the hooks that are set, whichever thread it is. A thread that
/// cannot be started, or that is lost, ends it.
pub proof fn law_step<'a, J, H: Clone, E>(
    launch: Launch<'a, J, H>,
    event: LaunchEvent<J, E>,
    step: LaunchStep<'a, J, H, E>,
)
    requires
        call_ensures(Launch::<'a, J, H>::step::<E>, (launch, event), step),
    ensures
        event matches LaunchEvent::NotStarted(e) ==> step == LaunchStep::<'a, J, H, E>::Failed(e),
        event is Lost ==> step is Panic,
        event is Started ==> (step is Ready <==> launch.threads().len() + 1
            >= launch.builder().workers()),
        event is Started ==> step is Ready || step is Start,
        event matches LaunchEvent::Started(join, worker) ==> (step matches LaunchStep::Ready(
            runtime,
        ) ==> {
            &&& runtime.threads() == launch.threads().push((launch.trigger(), join))
            &&& runtime.pool().workers() == launch.workers().push(worker)
            &&& runtime.pool().workers().len() == launch.builder().workers()
            &&& call_ensures(AtomicUsize::new, (0usize,), *runtime.pool().counter())
        }),
        event matches LaunchEvent::Started(join, worker) ==> (step matches LaunchStep::Start(
            next,
            plan,
        ) ==> {
            let builder = launch.builder();
            &&& next.builder() == builder
            &&& next.threads() == launch.threads().push((launch.trigger(), join))
            &&& next.workers() == launch.workers().push(worker)
            &&& call_ensures(oneshot::channel::<bool>, (), (next.trigger(), plan.exit))
            &&& is_plan(builder, next.threads().len() as int, plan)
            &&& builder.stop_hook() matches Some(hook) ==> plan.worker.stop_hook() is Some
                && cloned(hook, plan.worker.stop_hook()->0)
            &&& builder.start_hook() matches Some(hook) ==> plan.worker.todo().len() == 3
                && plan.worker.todo()[0] is AfterStart && cloned(
                hook,
                plan.worker.todo()[0]->AfterStart_0,
            )
        }),
{
    if let LaunchStep::Start(next, plan) = step {
        if event is Started {
            law_every_thread_gets_the_hooks(
                launch.builder(),
                next.threads().len() as int,
                plan,
            );
        }
    }
}

} // verus!

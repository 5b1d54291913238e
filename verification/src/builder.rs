//! The configuration of a pool.

use crate::launch::{is_channel, is_clone, is_plan, Launch, WorkerPlan};
use crate::naming::thread_name;
use crate::shutdown::Thread;
use crate::worker::Worker;
use tokio::runtime::current_thread::Handle as WorkerHandle;
use tokio::sync::oneshot;
use vstd::prelude::*;

verus! {

/// Builds an I/O-oriented thread pool with custom configuration values.
///
/// Methods can be chained in order to set the configuration values. The pool is constructed by
/// calling [`Builder::build`]. `H` is the type of the hooks; every thread gets its own clones of
/// them.
pub struct Builder<H> {
    nworkers: usize,
    name_prefix: Option<String>,
    after_start: Option<H>,
    before_stop: Option<H>,
}

impl<H> Default for Builder<H> {
    /// A pool with as many workers as there are cores available to the system, with the system's
    /// own thread names and without hooks.
    fn default() -> (builder: Self)
        ensures
            call_ensures(num_cpus::get, (), builder.workers()),
            builder.workers() >= 1,
            builder.prefix() is None,
            builder.start_hook() is None,
            builder.stop_hook() is None,
    {
        Builder {
            nworkers: num_cpus::get(),
            name_prefix: None,
            after_start: None,
            before_stop: None,
        }
    }
}

impl<H> Builder<H> {
    /// The number of workers.
    pub closed spec fn workers(self) -> usize {
        self.nworkers
    }

    /// The prefix of the thread names.
    pub closed spec fn prefix(self) -> Option<String> {
        self.name_prefix
    }

    /// The hook for threads that have started.
    pub closed spec fn start_hook(self) -> Option<H> {
        self.after_start
    }

    /// The hook for threads that are about to stop.
    pub closed spec fn stop_hook(self) -> Option<H> {
        self.before_stop
    }

    /// Sets the number of worker threads of the pool.
    ///
    /// This must be a number between 1 and 32,768, though it is advised to keep it on the smaller
    /// side. The default value is the number of cores available to the system.
    pub fn pool_size(&mut self, val: usize) -> (builder: &mut Self)
        ensures
            builder.workers() == val,
            builder.prefix() == old(self).prefix(),
            builder.start_hook() == old(self).start_hook(),
            builder.stop_hook() == old(self).stop_hook(),
            *final(self) == *final(builder),
    {
        self.nworkers = val;
        self
    }

    /// Sets the name prefix of the worker threads.
    ///
    /// If the prefix is `my-pool-`, then threads in the pool get names like `my-pool-1`. If this is
    /// not set, then the threads use the system's own naming scheme.
    pub fn name_prefix<S: Into<String>>(&mut self, val: S) -> (builder: &mut Self)
        ensures
            builder.workers() == old(self).workers(),
            builder.prefix() is Some,
            call_ensures(S::into, (val,), builder.prefix()->0),
            builder.start_hook() == old(self).start_hook(),
            builder.stop_hook() == old(self).stop_hook(),
            *final(self) == *final(builder),
    {
        self.thread_name_prefix(val.into())
    }

    /// Sets the name prefix of the worker threads to the given string.
    pub fn thread_name_prefix(&mut self, val: String) -> (builder: &mut Self)
        ensures
            builder.workers() == old(self).workers(),
            builder.prefix() == Some(val),
            builder.start_hook() == old(self).start_hook(),
            builder.stop_hook() == old(self).stop_hook(),
            *final(self) == *final(builder),
    {
        self.name_prefix = Some(val);
        self
    }

    /// Has each thread run the hook `f` after it is started but before it starts doing work.
    pub fn after_start(&mut self, f: H) -> (builder: &mut Self)
        ensures
            builder.workers() == old(self).workers(),
            builder.prefix() == old(self).prefix(),
            builder.start_hook() == Some(f),
            builder.stop_hook() == old(self).stop_hook(),
            *final(self) == *final(builder),
    {
        self.after_start = Some(f);
        self
    }

    /// Has each thread run the hook `f` before it stops.
    pub fn before_stop(&mut self, f: H) -> (builder: &mut Self)
        ensures
            builder.workers() == old(self).workers(),
            builder.prefix() == old(self).prefix(),
            builder.start_hook() == old(self).start_hook(),
            builder.stop_hook() == Some(f),
            *final(self) == *final(builder),
    {
        self.before_stop = Some(f);
        self
    }
}

impl<H> Builder<H> {
    /// The number of workers that is set.
    pub fn size(&self) -> (nworkers: usize)
        ensures
            nworkers == self.workers(),
    {
        self.nworkers
    }

    /// The name prefix that is set.
    pub fn thread_prefix(&self) -> (prefix: &Option<String>)
        ensures
            *prefix == self.prefix(),
    {
        &self.name_prefix
    }
}

impl<H: Clone> Builder<H> {
    /// The thread of the worker with the given index, and the trigger of its exit signal.
    pub(crate) fn plan(&self, index: usize) -> (planned: (oneshot::Sender<bool>, WorkerPlan<H>))
        requires
            index < self.workers(),
        ensures
            is_plan(*self, index as int, planned.1),
            is_channel(planned.0, planned.1.exit),
    {
        let (trigger, exit) = oneshot::channel();
        let after_start = self.after_start.clone();
        let before_stop = self.before_stop.clone();
        assert(is_clone(self.start_hook(), after_start));
        let plan = WorkerPlan {
            name: thread_name(&self.name_prefix, index),
            exit,
            worker: Worker::new(after_start, before_stop),
        };
        (trigger, plan)
    }

    /// Builds the configured pool.
    ///
    /// The threads of the pool are started one after the other. What is returned is the first of
    /// them, together with the state from which [`Launch::step`] goes on.
    pub fn build<J>(&self) -> (begun: (Launch<'_, J, H>, WorkerPlan<H>))
        requires
            self.workers() > 0,
        ensures
            begun.0.builder() == *self,
            begun.0.threads() == Seq::<Thread<J>>::empty(),
            begun.0.workers() == Seq::<WorkerHandle>::empty(),
            is_plan(*self, 0, begun.1),
            is_channel(begun.0.trigger(), begun.1.exit),
    {
        Launch::begin(self)
    }
}

} // verus!

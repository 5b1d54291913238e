//! Waiting for a future that runs on the pool.
//!
//! The future is spawned onto the pool first, so that a worker polls it. Then the calling thread
//! enters an executor context of its own, and waits there for the result.

use vstd::prelude::*;

verus! {

/// What became of the step that was taken last. `E` is the error of a step that failed.
pub enum BlockOnEvent<O, E> {
    /// The future was spawned onto the pool.
    Spawned(Result<(), E>),
    /// The thread entered an executor context.
    Entered(Result<(), E>),
    /// The worker sent the result of the future, or dropped the future.
    Received(Result<O, E>),
}

/// What is done next.
pub enum BlockOnStep<O, E> {
    /// Enter an executor context.
    Enter,
    /// Block the thread until the worker sends the result.
    Wait,
    /// Return the result of the future.
    Return(O),
    /// Panic with the given message and the error that caused it.
    Panic(&'static str, E),
}

/// The next step of waiting for a future, given what became of the step before.
pub fn block_on_step<O, E>(event: BlockOnEvent<O, E>) -> (step: BlockOnStep<O, E>)
    ensures
        match event {
            BlockOnEvent::Spawned(Ok(())) => step is Enter,
            BlockOnEvent::Entered(Ok(())) => step is Wait,
            BlockOnEvent::Received(Ok(output)) => step == BlockOnStep::<O, E>::Return(output),
            BlockOnEvent::Spawned(Err(e)) => step == BlockOnStep::<O, E>::Panic(
                "the runtime is no longer running",
                e,
            ),
            BlockOnEvent::Entered(Err(e)) => step == BlockOnStep::<O, E>::Panic(
                "already running in executor context",
                e,
            ),
            BlockOnEvent::Received(Err(e)) => step == BlockOnStep::<O, E>::Panic(
                "runtime shut down unexpectedly",
                e,
            ),
        },
{
    match event {
        BlockOnEvent::Spawned(Ok(())) => BlockOnStep::Enter,
        BlockOnEvent::Entered(Ok(())) => BlockOnStep::Wait,
        BlockOnEvent::Received(Ok(output)) => BlockOnStep::Return(output),
        BlockOnEvent::Spawned(Err(e)) => BlockOnStep::Panic("the runtime is no longer running", e),
        BlockOnEvent::Entered(Err(e)) => BlockOnStep::Panic(
            "already running in executor context",
            e,
        ),
        BlockOnEvent::Received(Err(e)) => BlockOnStep::Panic("runtime shut down unexpectedly", e),
    }
}

/// A call that waits for a future goes on as long as every step succeeds, and returns what the worker
/// sent, and nothing else. A step that fails makes it panic with the error of that step.
pub proof fn law_block_on_step<O, E>(event: BlockOnEvent<O, E>, step: BlockOnStep<O, E>)
    requires
        call_ensures(block_on_step::<O, E>, (event,), step),
    ensures
        step is Enter <==> event matches BlockOnEvent::Spawned(Ok(_)),
        step is Wait <==> event matches BlockOnEvent::Entered(Ok(_)),
        step is Return <==> event matches BlockOnEvent::Received(Ok(_)),
        event matches BlockOnEvent::Received(Ok(output)) ==> step == BlockOnStep::<O, E>::Return(
            output,
        ),
        event matches BlockOnEvent::Spawned(Err(e)) ==> step is Panic && step->Panic_1 == e,
        event matches BlockOnEvent::Entered(Err(e)) ==> step is Panic && step->Panic_1 == e,
        event matches BlockOnEvent::Received(Err(e)) ==> step is Panic && step->Panic_1 == e,
{
}

} // verus!

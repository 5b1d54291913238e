//! The decisions of the library on given values.

use tokio::executor::SpawnError;
use tokio::runtime::current_thread;
use tokio::sync::oneshot;
use tokio_io_pool::{
    after_spawn, block_on_step, thread_name, worker_for, BlockOnEvent, BlockOnStep, Builder,
    ExitSignal, LaunchEvent, LaunchStep, Runtime, SpawnerStep, StopAction, StopEvent, StopFailure,
    StopStep, StreamSpawnError, Worker, WorkerStep,
};

fn named(prefix: &str, index: usize) -> String {
    thread_name(&Some(prefix.to_string()), index).unwrap()
}

fn ready(nworkers: usize) -> (Runtime<usize>, Vec<oneshot::Receiver<bool>>) {
    let runtime = current_thread::Runtime::new().unwrap();
    let mut builder: Builder<()> = Builder::default();
    builder.pool_size(nworkers);
    let mut exits = Vec::new();
    let (mut launch, mut plan) = builder.build();
    loop {
        exits.push(plan.exit);
        let started = LaunchEvent::Started(exits.len() * 10, runtime.handle());
        match launch.step::<()>(started) {
            LaunchStep::Start(next, next_plan) => {
                launch = next;
                plan = next_plan;
            }
            LaunchStep::Ready(pool) => return (pool, exits),
            _ => panic!("every thread was started"),
        }
    }
}

#[test]
fn workers_take_turns() {
    let turns: Vec<usize> = (0..8).map(|ticket| worker_for(ticket, 3)).collect();
    assert_eq!(turns, vec![0, 1, 2, 0, 1, 2, 0, 1]);
    assert_eq!(worker_for(5, 1), 0);
    assert_eq!(worker_for(32_768, 32_768), 0);
}

#[test]
fn loads_are_balanced() {
    for base in [0usize, 1, 5, 1000].iter() {
        for count in 0..20usize {
            let mut loads = [0usize; 4];
            for k in 0..count {
                loads[worker_for(base + k, 4)] += 1;
            }
            assert!(loads.iter().all(|load| *load == count / 4 || *load == (count + 3) / 4));
        }
    }
}

#[test]
fn a_wrapped_counter_keeps_turns_only_for_divisors() {
    assert_eq!((worker_for(usize::MAX, 4), worker_for(0, 4)), (3, 0));
    assert_eq!((worker_for(usize::MAX, 3), worker_for(0, 3)), (0, 0));
}

#[test]
fn names_count_from_one() {
    assert_eq!(named("my-pool-", 0), "my-pool-1");
    assert_eq!(named("my-pool-", 8), "my-pool-9");
    assert_eq!(named("my-pool-", 9), "my-pool-10");
    assert_eq!(named("", 32_767), "32768");
    assert_eq!(named("w\u{e9}", 1099), "w\u{e9}1100");
    assert_eq!(named("", usize::MAX - 1), usize::MAX.to_string());
    assert_eq!(thread_name(&None, 4), None);
}

#[test]
fn names_differ() {
    let names: Vec<String> = (0..200).map(|index| named("p1", index)).collect();
    for (i, a) in names.iter().enumerate() {
        assert!(names[i + 1..].iter().all(|b| a != b));
    }
}

#[test]
fn the_default_is_a_worker_per_cpu() {
    let builder: Builder<()> = Builder::default();
    assert_eq!(builder.size(), num_cpus::get());
    assert!(builder.size() >= 1);
    assert_eq!(*builder.thread_prefix(), None);
}

#[test]
fn settings_can_be_chained() {
    let mut builder: Builder<u8> = Builder::default();
    builder.pool_size(7).name_prefix("a").after_start(1).before_stop(2).pool_size(5);
    assert_eq!(builder.size(), 5);
    assert_eq!(*builder.thread_prefix(), Some("a".to_string()));
    builder.name_prefix(String::from("b")).thread_name_prefix("c".to_string());
    assert_eq!(*builder.thread_prefix(), Some("c".to_string()));
    let (_, plan) = builder.build::<()>();
    let mut worker = plan.worker;
    assert!(matches!(worker.next(), WorkerStep::AfterStart(1)));
    assert!(matches!(worker.next(), WorkerStep::StartRuntime));
    assert!(matches!(worker.next(), WorkerStep::PublishHandle));
    assert!(matches!(worker.next(), WorkerStep::AwaitExit));
    worker.exit(true);
    assert!(matches!(worker.next(), WorkerStep::BeforeStop(2)));
    assert!(matches!(worker.next(), WorkerStep::Finished));
}

#[test]
fn a_thread_that_cannot_be_started_fails_the_build() {
    let mut builder: Builder<()> = Builder::default();
    builder.pool_size(2);
    let (launch, _) = builder.build::<()>();
    assert!(matches!(launch.step(LaunchEvent::NotStarted("no")), LaunchStep::Failed("no")));

    let runtime = current_thread::Runtime::new().unwrap();
    let (launch, _) = builder.build::<()>();
    match launch.step::<u8>(LaunchEvent::Started((), runtime.handle())) {
        LaunchStep::Start(launch, _) => {
            assert!(matches!(launch.step(LaunchEvent::NotStarted(9)), LaunchStep::Failed(9)));
        }
        _ => panic!("one thread is missing"),
    }
}

#[test]
fn a_thread_that_is_lost_panics() {
    let builder: Builder<()> = Builder::default();
    let (launch, _) = builder.build::<()>();
    assert!(matches!(launch.step::<()>(LaunchEvent::Lost), LaunchStep::Panic));
}

#[test]
fn the_signal_reaches_the_thread_it_is_for() {
    let (pool, mut exits) = ready(2);
    let mut shutdown = pool.shutdown_on_idle();
    match shutdown.next::<()>(StopEvent::Begin, false) {
        StopStep::Act(StopAction::Signal(signal)) => {
            assert_eq!(signal.send(), Ok(()))
        }
        _ => panic!("the first worker is told first"),
    }
    assert_eq!(exits[0].try_recv().unwrap(), false);
    assert!(exits[1].try_recv().is_err());
}

#[test]
fn a_signal_that_does_not_arrive_comes_back() {
    for force_exit in [true, false].iter() {
        let (trigger, exit) = oneshot::channel();
        drop(exit);
        let signal = ExitSignal { trigger, force_exit: *force_exit };
        assert_eq!(signal.send().err(), Some(*force_exit));
    }
}

#[test]
fn a_worker_without_hooks() {
    let mut worker: Worker<()> = Worker::new(None, None);
    worker.exit(true);
    assert!(matches!(worker.next(), WorkerStep::StartRuntime));
    assert!(matches!(worker.next(), WorkerStep::PublishHandle));
    assert!(matches!(worker.next(), WorkerStep::AwaitExit));
    assert!(matches!(worker.next(), WorkerStep::AwaitExit));
    worker.exit(false);
    assert!(matches!(worker.next(), WorkerStep::RunUntilIdle));
    worker.exit(false);
    assert!(matches!(worker.next(), WorkerStep::Finished));
    assert!(matches!(worker.next(), WorkerStep::Finished));
}

#[test]
fn a_worker_whose_pool_is_gone_still_runs_its_stop_hook() {
    let mut worker = Worker::new(None, Some('s'));
    worker.abandoned();
    assert!(matches!(worker.next(), WorkerStep::StartRuntime));
    assert!(matches!(worker.next(), WorkerStep::PublishHandle));
    assert!(matches!(worker.next(), WorkerStep::AwaitExit));
    worker.abandoned();
    assert!(matches!(worker.next(), WorkerStep::BeforeStop('s')));
    assert!(matches!(worker.next(), WorkerStep::Finished));
}

#[test]
fn all_signals_come_before_the_first_join() {
    let (pool, mut exits) = ready(3);
    let mut shutdown = pool.shutdown();
    let mut event: StopEvent<()> = StopEvent::Begin;
    for exit in exits.iter_mut() {
        event = match shutdown.next(event, false) {
            StopStep::Act(StopAction::Signal(signal)) => {
                assert!(signal.force_exit);
                StopEvent::Signalled(signal.send())
            }
            _ => panic!("not all workers are told"),
        };
        assert_eq!(exit.try_recv().unwrap(), true);
    }
    for thread in [10, 20, 30].iter() {
        event = match shutdown.next(event, false) {
            StopStep::Act(StopAction::Join(joined)) => {
                assert_eq!(joined, *thread);
                StopEvent::Joined(Ok(()))
            }
            _ => panic!("not all threads are joined"),
        };
    }
    assert!(matches!(shutdown.next(event, false), StopStep::Finished));
    assert!(matches!(shutdown.next::<()>(StopEvent::Begin, false), StopStep::Finished));
}

#[test]
fn a_shutdown_on_idle_does_not_force_the_workers() {
    let (pool, _exits) = ready(1);
    let mut shutdown = pool.shutdown_on_idle();
    match shutdown.next::<()>(StopEvent::Begin, false) {
        StopStep::Act(StopAction::Signal(signal)) => assert!(!signal.force_exit),
        _ => panic!("the worker is told first"),
    }
}

#[test]
fn a_failure_panics_and_ends_the_shutdown() {
    let (pool, _exits) = ready(2);
    let mut shutdown = pool.shutdown();
    let failed: StopEvent<u8> = StopEvent::Signalled(Err(true));
    assert!(matches!(
        shutdown.next(failed, false),
        StopStep::Panic(StopFailure::Signal(true))
    ));
    assert!(matches!(shutdown.next::<u8>(StopEvent::Begin, false), StopStep::Finished));

    let (pool, _exits) = ready(2);
    let mut shutdown = pool.shutdown_on_idle();
    assert!(matches!(
        shutdown.next(StopEvent::Joined(Err(8)), false),
        StopStep::Panic(StopFailure::Join(8))
    ));
}

#[test]
fn failures_have_their_messages() {
    assert_eq!(StopFailure::<u8>::Signal(true).message(), "oneshot::Sender::Send");
    assert_eq!(StopFailure::Join(8).message(), "JoinHandle::join");
}

#[test]
fn a_panicking_thread_does_not_panic_again() {
    let (pool, exits) = ready(1);
    drop(exits);
    let mut shutdown = pool.shutdown();
    let mut event: StopEvent<u8> = StopEvent::Begin;
    event = match shutdown.next(event, true) {
        StopStep::Act(StopAction::Signal(signal)) => StopEvent::Signalled(signal.send()),
        _ => panic!("the worker is told first"),
    };
    assert!(matches!(event, StopEvent::Signalled(Err(true))));
    assert!(matches!(shutdown.next(event, true), StopStep::Act(StopAction::Join(10))));
    assert!(matches!(shutdown.next(StopEvent::Joined(Err(1)), true), StopStep::Finished));
}

#[test]
fn spawn_errors_end_a_spawner() {
    assert!(matches!(after_spawn::<()>(Ok(())), SpawnerStep::PollStream));
    match after_spawn::<()>(Err(SpawnError::at_capacity())) {
        SpawnerStep::Ready(Err(StreamSpawnError::Spawn(e))) => assert!(e.is_at_capacity()),
        _ => panic!("the error is passed on"),
    }
}

#[test]
fn stream_errors_are_converted() {
    assert!(matches!(StreamSpawnError::from("broken"), StreamSpawnError::Stream("broken")));
}

#[test]
fn a_refusal_is_passed_on() {
    let (pool, _exits) = ready(1);
    let refused = pool.handle().spawned(Err(SpawnError::at_capacity()));
    assert!(refused.err().unwrap().is_at_capacity());
    let refused = pool.spawned(Err(SpawnError::at_capacity()));
    assert!(refused.err().unwrap().is_at_capacity());
    assert_eq!(pool.spawned(Ok(pool.handle())).unwrap().size(), 1);
    assert_eq!(pool.handle().spawned(Ok(())).unwrap().size(), 1);
}

#[test]
fn waiting_for_a_future() {
    let step = block_on_step::<u32, ()>(BlockOnEvent::Spawned(Ok(())));
    assert!(matches!(step, BlockOnStep::Enter));
    let step = block_on_step::<u32, ()>(BlockOnEvent::Entered(Ok(())));
    assert!(matches!(step, BlockOnStep::Wait));
    let step = block_on_step::<u32, ()>(BlockOnEvent::Received(Ok(43)));
    assert!(matches!(step, BlockOnStep::Return(43)));
}

#[test]
fn waiting_for_a_future_can_fail() {
    let step = block_on_step::<(), u8>(BlockOnEvent::Spawned(Err(1)));
    assert!(matches!(step, BlockOnStep::Panic("the runtime is no longer running", 1)));
    let step = block_on_step::<(), u8>(BlockOnEvent::Entered(Err(2)));
    assert!(matches!(step, BlockOnStep::Panic("already running in executor context", 2)));
    let step = block_on_step::<(), u8>(BlockOnEvent::Received(Err(3)));
    assert!(matches!(step, BlockOnStep::Panic("runtime shut down unexpectedly", 3)));
}

//! Pools whose workers all live on the thread of the test, driven one after the other.

use std::future::Future;
use std::rc::Rc;
use std::sync::{Arc, Mutex};
use tokio::executor::SpawnError;
use tokio::runtime::current_thread;
use tokio::sync::oneshot;
use tokio_io_pool::{
    block_on_step, BlockOnEvent, BlockOnStep, Builder, Handle, LaunchEvent, LaunchStep, Runtime, Shutdown, SpawnerStep, StopAction,
    StopEvent, StopStep, StreamPoll, StreamSpawnError, Worker, WorkerPlan, WorkerStep,
};

type Log = Arc<Mutex<Vec<String>>>;

/// A worker that waits for its exit signal.
struct Local {
    runtime: Option<current_thread::Runtime>,
    exit: oneshot::Receiver<bool>,
    worker: Worker<&'static str>,
    name: Option<String>,
}

impl Local {
    fn start(plan: WorkerPlan<&'static str>, log: &Log) -> Local {
        let WorkerPlan { name, exit, mut worker } = plan;
        let mut runtime = None;
        loop {
            match worker.next() {
                WorkerStep::AfterStart(hook) => log.lock().unwrap().push(hook.to_string()),
                WorkerStep::StartRuntime => {
                    log.lock().unwrap().push("runtime".to_string());
                    runtime = Some(current_thread::Runtime::new().unwrap());
                }
                WorkerStep::PublishHandle => assert!(runtime.is_some()),
                WorkerStep::AwaitExit => break,
                _ => panic!("not told to exit yet"),
            }
        }
        Local { runtime, exit, worker, name }
    }

    fn handle(&self) -> current_thread::Handle {
        self.runtime.as_ref().unwrap().handle()
    }

    fn run(&mut self) {
        self.runtime.as_mut().unwrap().run().unwrap();
    }

    /// Polls what has been spawned so far.
    fn turn(&mut self) {
        let runtime = self.runtime.as_mut().unwrap();
        let (tx, rx) = oneshot::channel();
        runtime.spawn(async move { tx.send(()).unwrap() });
        runtime.block_on(rx).unwrap();
    }

    fn finish(self, log: &Log) {
        let Local { runtime, exit, mut worker, .. } = self;
        let mut runtime = runtime.unwrap();
        loop {
            match worker.next() {
                WorkerStep::AwaitExit => unreachable!(),
                WorkerStep::RunUntilIdle => {
                    log.lock().unwrap().push("idle".to_string());
                    runtime.run().unwrap();
                }
                WorkerStep::BeforeStop(hook) => log.lock().unwrap().push(hook.to_string()),
                WorkerStep::Finished => break,
                _ => panic!("started already"),
            }
        }
        drop(exit);
    }

    fn tell(&mut self) {
        let runtime = self.runtime.as_mut().unwrap();
        match runtime.block_on(&mut self.exit) {
            Ok(force_exit) => self.worker.exit(force_exit),
            Err(_) => self.worker.abandoned(),
        }
    }
}

fn build(builder: &Builder<&'static str>, log: &Log) -> (Runtime<usize>, Vec<Local>) {
    let mut locals = Vec::new();
    let (mut launch, mut plan) = builder.build();
    loop {
        let local = Local::start(plan, log);
        let handle = local.handle();
        locals.push(local);
        let started = LaunchEvent::Started(locals.len() - 1, handle);
        match launch.step::<()>(started) {
            LaunchStep::Start(next, next_plan) => {
                launch = next;
                plan = next_plan;
            }
            LaunchStep::Ready(runtime) => return (runtime, locals),
            _ => panic!("every thread was started"),
        }
    }
}

fn pool(nworkers: usize) -> (Runtime<usize>, Vec<Local>) {
    let mut builder: Builder<&'static str> = Builder::default();
    builder.pool_size(nworkers);
    build(&builder, &Log::default())
}

fn stop(mut shutdown: Shutdown<usize>, locals: Vec<Local>, log: &Log) {
    let mut locals: Vec<Option<Local>> = locals.into_iter().map(Some).collect();
    let mut told = 0;
    let mut event: StopEvent<()> = StopEvent::Begin;
    loop {
        event = match shutdown.next(event, false) {
            StopStep::Act(StopAction::Signal(signal)) => {
                let sent = signal.send();
                locals[told].as_mut().unwrap().tell();
                told += 1;
                StopEvent::Signalled(sent)
            }
            StopStep::Act(StopAction::Join(worker)) => {
                locals[worker].take().unwrap().finish(log);
                StopEvent::Joined(Ok(()))
            }
            StopStep::Panic(_) => panic!("nothing failed"),
            StopStep::Finished => break,
        };
    }
    assert_eq!(told, locals.len());
    assert!(locals.iter().all(|local| local.is_none()));
}

/// Spawns a future onto the pool of `rt`.
fn spawn<F>(rt: &Runtime<usize>, future: F) -> Result<&Runtime<usize>, SpawnError>
where
    F: Future<Output = ()> + Send + 'static,
{
    rt.spawn(|worker| worker.spawn(future))
}

/// Runs a future on the pool and waits for its result.
fn block_on<F, O>(rt: &mut Runtime<usize>, locals: &mut [Local], future: F) -> O
where
    F: Future<Output = O> + Send + 'static,
    O: Send + 'static,
{
    let (tx, mut rx) = oneshot::channel();
    let step = rt.block_on::<_, O>(|worker| {
        worker.spawn(async move {
            let _ = tx.send(future.await);
        })
    });
    assert!(matches!(step, BlockOnStep::Enter));
    let entered: BlockOnEvent<O, ()> = BlockOnEvent::Entered(Ok(()));
    assert!(matches!(block_on_step(entered), BlockOnStep::Wait));
    loop {
        locals.iter_mut().for_each(Local::turn);
        if let Ok(output) = rx.try_recv() {
            let received: BlockOnEvent<O, ()> = BlockOnEvent::Received(Ok(output));
            match block_on_step(received) {
                BlockOnStep::Return(output) => return output,
                _ => panic!("the result is there"),
            }
        }
    }
}

fn spawn_number(handle: &Handle, seen: &Arc<Mutex<Vec<usize>>>, number: usize) {
    let seen = seen.clone();
    handle
        .spawn(|worker| {
            worker.spawn(async move {
                seen.lock().unwrap().push(number);
            })
        })
        .unwrap();
}

#[test]
fn it_works() {
    let (tx, rx) = oneshot::channel();

    let (mut rt, mut locals) = pool(num_cpus::get());
    spawn(&rt, async move {
        tx.send(()).unwrap();
    })
    .unwrap();
    assert_eq!(block_on(&mut rt, &mut locals, rx).unwrap(), ());
    stop(rt.shutdown_on_idle(), locals, &Log::default());
}

#[test]
fn interthread_communication() {
    let (tx0, rx0) = oneshot::channel::<u32>();
    let (tx1, rx1) = oneshot::channel::<u32>();

    let (mut rt, mut locals) = pool(2);
    spawn(&rt, async move { tx0.send(42).unwrap() }).unwrap();
    spawn(&rt, async move {
        let v = rx0.await.unwrap();
        tx1.send(v + 1).unwrap();
    })
    .unwrap();
    assert_eq!(block_on(&mut rt, &mut locals, rx1).unwrap(), 43);
    stop(rt.shutdown_on_idle(), locals, &Log::default());
}

#[test]
fn spawn_nonsend_futures() {
    let done = Arc::new(Mutex::new(0));
    let (rt, locals) = pool(num_cpus::get());
    let result = done.clone();
    spawn(&rt, async move {
        let rx = {
            let (tx, rx) = oneshot::channel::<u32>();
            let x = Rc::new(42u32);
            current_thread::spawn(async move {
                tx.send(*x).unwrap();
            });
            rx
        };
        let v = rx.await.unwrap();
        assert_eq!(42, v);
        *result.lock().unwrap() = v;
    })
    .unwrap();
    stop(rt.shutdown_on_idle(), locals, &Log::default());
    assert_eq!(*done.lock().unwrap(), 42);
}

#[test]
fn really_lazy() {
    let ran = Arc::new(Mutex::new(false));
    let (mut rt, mut locals) = pool(num_cpus::get());
    let inner = ran.clone();
    block_on(&mut rt, &mut locals, async move {
        tokio::spawn(async move {
            *inner.lock().unwrap() = true;
        });
    });
    stop(rt.shutdown_on_idle(), locals, &Log::default());
    assert!(*ran.lock().unwrap());
}

#[test]
fn futures_are_spawned_round_robin() {
    let (rt, mut locals) = pool(3);
    let seen = Arc::new(Mutex::new(Vec::new()));
    for number in 0..7 {
        spawn_number(rt.handle(), &seen, number);
    }
    let mut shares = Vec::new();
    for local in locals.iter_mut() {
        local.run();
        shares.push(std::mem::take(&mut *seen.lock().unwrap()));
    }
    assert_eq!(shares, vec![vec![0, 3, 6], vec![1, 4], vec![2, 5]]);
    assert_eq!(rt.handle().next(), 7);
}

#[test]
fn clones_of_a_handle_share_the_counter() {
    let (rt, mut locals) = pool(2);
    let seen = Arc::new(Mutex::new(Vec::new()));
    let copy = rt.handle().clone();
    spawn_number(rt.handle(), &seen, 0);
    spawn_number(&copy, &seen, 1);
    spawn_number(rt.handle(), &seen, 2);
    assert_eq!((copy.size(), copy.next()), (2, 3));
    locals[0].run();
    assert_eq!(*seen.lock().unwrap(), vec![0, 2]);
    locals[1].run();
    assert_eq!(*seen.lock().unwrap(), vec![0, 2, 1]);
}

#[test]
fn a_pool_goes_on_where_its_handle_left_off() {
    let (rt, mut locals) = pool(2);
    let seen = Arc::new(Mutex::new(Vec::new()));
    spawn_number(&rt.handle().clone(), &seen, 0);
    let by_pool = seen.clone();
    spawn(&rt, async move { by_pool.lock().unwrap().push(1) }).unwrap();
    locals[1].run();
    assert_eq!(*seen.lock().unwrap(), vec![1]);
    locals[0].run();
    assert_eq!(*seen.lock().unwrap(), vec![1, 0]);
}

#[test]
fn the_ticket_decides_on_the_worker() {
    let (rt, mut locals) = pool(3);
    let seen = Arc::new(Mutex::new(Vec::new()));
    for ticket in [5, 7, usize::MAX].iter() {
        let seen = seen.clone();
        let ticket = *ticket;
        rt.handle()
            .worker_with_ticket(ticket)
            .spawn(async move {
                seen.lock().unwrap().push(ticket);
            })
            .unwrap();
    }
    assert_eq!(rt.handle().next(), 0);
    locals[0].run();
    assert_eq!(*seen.lock().unwrap(), vec![usize::MAX]);
    locals[1].run();
    assert_eq!(*seen.lock().unwrap(), vec![usize::MAX, 7]);
    locals[2].run();
    assert_eq!(*seen.lock().unwrap(), vec![usize::MAX, 7, 5]);
}

#[test]
fn a_new_pool_starts_with_its_first_worker() {
    let (rt, mut locals) = pool(2);
    assert_eq!(rt.handle().next(), 0);
    let seen = Arc::new(Mutex::new(Vec::new()));
    for number in 0..2 {
        let seen = seen.clone();
        rt.handle()
            .assign()
            .spawn(async move { seen.lock().unwrap().push(number) })
            .unwrap();
    }
    assert_eq!(rt.handle().next(), 2);
    locals[0].run();
    assert_eq!(*seen.lock().unwrap(), vec![0]);
    locals[1].run();
    assert_eq!(*seen.lock().unwrap(), vec![0, 1]);
}

#[test]
fn two_pools_of_one_builder_are_independent() {
    let mut builder: Builder<&'static str> = Builder::default();
    builder.pool_size(2);
    let (a, mut a_locals) = build(&builder, &Log::default());
    let (b, mut b_locals) = build(&builder, &Log::default());
    let seen = Arc::new(Mutex::new(Vec::new()));
    spawn_number(a.handle(), &seen, 0);
    assert_eq!((a.handle().next(), b.handle().next()), (1, 0));
    b_locals.iter_mut().for_each(Local::run);
    assert!(seen.lock().unwrap().is_empty());
    a_locals[0].run();
    assert_eq!(*seen.lock().unwrap(), vec![0]);
}

#[test]
fn spawns_can_be_chained() {
    let (rt, mut locals) = pool(1);
    let seen = Arc::new(Mutex::new(Vec::new()));
    let (a, b) = (seen.clone(), seen.clone());
    rt.spawn(|worker| worker.spawn(async move { a.lock().unwrap().push('a') }))
        .unwrap()
        .spawn(|worker| worker.spawn(async move { b.lock().unwrap().push('b') }))
        .unwrap();
    locals[0].run();
    assert_eq!(*seen.lock().unwrap(), vec!['a', 'b']);
}

#[test]
fn a_worker_that_is_gone_refuses_futures() {
    let (rt, mut locals) = pool(2);
    locals[1].runtime = None;
    assert!(spawn(&rt, async {}).is_ok());
    assert!(spawn(&rt, async {}).err().unwrap().is_shutdown());
    assert!(rt.handle().spawn(|worker| worker.spawn(async {})).is_ok());
    let refused = rt.handle().spawn(|worker| worker.spawn(async {}));
    assert!(refused.err().unwrap().is_shutdown());
    assert_eq!(rt.handle().next(), 4);
}

#[test]
fn a_refused_spawn_uses_up_its_ticket() {
    let (rt, mut locals) = pool(3);
    let seen = Arc::new(Mutex::new(Vec::new()));
    spawn_number(rt.handle(), &seen, 0);
    let refused = rt.handle().spawn(|_| Err(SpawnError::at_capacity()));
    assert!(refused.err().unwrap().is_at_capacity());
    spawn_number(rt.handle(), &seen, 2);
    assert_eq!(rt.handle().next(), 3);
    locals[1].run();
    assert!(seen.lock().unwrap().is_empty());
    locals[2].run();
    assert_eq!(*seen.lock().unwrap(), vec![2]);
}

#[test]
fn waiting_for_a_future_spawns_it_first() {
    let (mut rt, mut locals) = pool(2);
    let (tx, rx) = oneshot::channel();
    let step = rt.block_on::<_, ()>(|worker| {
        worker.spawn(async move {
            tx.send(43).unwrap();
        })
    });
    assert!(matches!(step, BlockOnStep::Enter));
    assert_eq!(rt.handle().next(), 1);
    assert_eq!(locals[0].runtime.as_mut().unwrap().block_on(rx).unwrap(), 43);
    match rt.block_on::<_, ()>(|_| Err(SpawnError::shutdown())) {
        BlockOnStep::Panic(message, e) => {
            assert_eq!(message, "the runtime is no longer running");
            assert!(e.is_shutdown());
        }
        _ => panic!("the future was refused"),
    }
    assert_eq!(rt.handle().next(), 2);
}

#[test]
fn the_stop_hook_runs_when_a_later_thread_cannot_be_started() {
    let log = Log::default();
    let mut builder: Builder<&'static str> = Builder::default();
    builder.pool_size(2).before_stop("stopping");
    let (launch, plan) = builder.build::<usize>();
    let mut local = Local::start(plan, &log);
    let step = launch.step::<&str>(LaunchEvent::Started(0, local.handle()));
    let launch = match step {
        LaunchStep::Start(launch, _) => launch,
        _ => panic!("one thread is missing"),
    };
    assert!(matches!(launch.step(LaunchEvent::NotStarted("no")), LaunchStep::Failed("no")));
    local.tell();
    local.finish(&log);
    assert_eq!(*log.lock().unwrap(), vec!["runtime", "stopping"]);
}

#[test]
fn a_spawner_spawns_what_the_stream_yields() {
    let (rt, mut locals) = pool(2);
    let seen = Arc::new(Mutex::new(Vec::new()));
    let spawner = rt.spawn_all(vec![10, 11, 12]);
    assert_eq!(spawner.stream, vec![10, 11, 12]);
    for number in spawner.stream.iter() {
        let seen = seen.clone();
        let number = *number;
        let polled: StreamPoll<_, ()> = StreamPoll::Item(async move {
            seen.lock().unwrap().push(number);
        });
        let step = spawner.advance(polled, |worker, future| worker.spawn(future));
        assert!(matches!(step, SpawnerStep::PollStream));
    }
    assert_eq!(rt.handle().next(), 3);
    locals[1].run();
    assert_eq!(*seen.lock().unwrap(), vec![11]);
    locals[0].run();
    assert_eq!(*seen.lock().unwrap(), vec![11, 10, 12]);
}

#[test]
fn a_spawner_resolves_with_its_stream() {
    let (rt, _locals) = pool(1);
    let spawner = rt.handle().spawn_all(());
    let accept = |_: &current_thread::Handle, _: char| Ok(());
    let step = spawner.advance::<_, u8, _>(StreamPoll::Item('a'), accept);
    assert!(matches!(step, SpawnerStep::PollStream));
    let step = spawner.advance::<_, u8, _>(StreamPoll::Pending, accept);
    assert!(matches!(step, SpawnerStep::Pending));
    let step = spawner.advance(StreamPoll::Failed(3), accept);
    assert!(matches!(step, SpawnerStep::Ready(Err(StreamSpawnError::Stream(3)))));
    let step = spawner.advance::<_, u8, _>(StreamPoll::Ended, accept);
    assert!(matches!(step, SpawnerStep::Ready(Ok(()))));
    let step = spawner.advance::<_, u8, _>(StreamPoll::Item('b'), |_, item| {
        assert_eq!(item, 'b');
        Err(SpawnError::at_capacity())
    });
    match step {
        SpawnerStep::Ready(Err(StreamSpawnError::Spawn(e))) => assert!(e.is_at_capacity()),
        _ => panic!("the future was refused"),
    }
    assert_eq!(rt.handle().next(), 2);
}

#[test]
fn pending_in_between_changes_nothing() {
    let mut shares = Vec::new();
    for waits in [false, true].iter() {
        let (rt, _locals) = pool(2);
        let spawner = rt.spawn_all(());
        let order = Mutex::new(Vec::new());
        for item in 0..3 {
            if *waits {
                let nothing: StreamPoll<i32, ()> = StreamPoll::Pending;
                assert!(matches!(spawner.advance(nothing, |_, _| Ok(())), SpawnerStep::Pending));
            }
            let polled: StreamPoll<i32, ()> = StreamPoll::Item(item);
            let before = rt.handle().next();
            spawner.advance(polled, |_, item| {
                order.lock().unwrap().push((item, before));
                Ok(())
            });
        }
        shares.push((order.into_inner().unwrap(), rt.handle().next()));
    }
    assert_eq!(shares[0], shares[1]);
    assert_eq!(shares[0], (vec![(0, 0), (1, 1), (2, 2)], 3));
}

#[test]
fn threads_are_named_after_the_prefix() {
    let mut builder: Builder<&'static str> = Builder::default();
    builder.pool_size(3).name_prefix("my-pool-");
    let (rt, locals) = build(&builder, &Log::default());
    let names: Vec<_> = locals.iter().map(|local| local.name.clone()).collect();
    assert_eq!(
        names,
        vec![
            Some("my-pool-1".to_string()),
            Some("my-pool-2".to_string()),
            Some("my-pool-3".to_string())
        ]
    );
    assert_eq!((rt.size(), rt.handle().size()), (3, 3));
    let (_, locals) = pool(2);
    assert!(locals.iter().all(|local| local.name.is_none()));
}

#[test]
fn shutdown_on_idle_runs_futures_to_completion() {
    let log = Log::default();
    let seen = Arc::new(Mutex::new(Vec::new()));
    let mut builder: Builder<&'static str> = Builder::default();
    builder.pool_size(2).after_start("started").before_stop("stopping");
    let (rt, locals) = build(&builder, &log);
    // This future waits for one that another worker runs only after the exit signal.
    let (tx, rx) = oneshot::channel();
    spawn(&rt, async move { tx.send(()).unwrap() }).unwrap();
    let waiting = seen.clone();
    spawn(&rt, async move {
        rx.await.unwrap();
        waiting.lock().unwrap().push(1);
    })
    .unwrap();
    stop(rt.shutdown_on_idle(), locals, &log);
    assert_eq!(*seen.lock().unwrap(), vec![1]);
    assert_eq!(
        *log.lock().unwrap(),
        vec![
            "started", "runtime", "started", "runtime", "idle", "stopping", "idle", "stopping"
        ]
    );
}

#[test]
fn shutdown_drops_unfinished_futures() {
    let log = Log::default();
    let mut builder: Builder<&'static str> = Builder::default();
    builder.pool_size(1).before_stop("stopping");
    let (rt, locals) = build(&builder, &log);
    let (tx, mut rx) = oneshot::channel::<()>();
    let (_never, waits) = oneshot::channel::<()>();
    spawn(&rt, async move {
        let _ = waits.await;
        let _ = tx.send(());
    })
    .unwrap();
    stop(rt.shutdown(), locals, &log);
    assert!(rx.try_recv().is_err());
    assert_eq!(*log.lock().unwrap(), vec!["runtime", "stopping"]);
}

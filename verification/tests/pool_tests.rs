use rusttools::pool::Channel;
use rusttools::pool::Message;
use rusttools::pool::PoolInitialisationErrorKind;
use rusttools::pool::Task;
use rusttools::pool::ThreadPool;
use rusttools::pool::WorkerPhase;

#[test]
fn pool_owns_requested_workers() {
    for n in 1..=4usize {
        let pool = ThreadPool::new(n).expect("a positive worker count must succeed");
        assert_eq!(n, pool.worker_count());
        assert!(pool.workers.iter().all(|w| matches!(w.phase, WorkerPhase::Idle)));
    }
}

#[test]
fn zero_workers_rejected() {
    let err = ThreadPool::new(0).expect_err("a pool cannot run without workers");
    assert!(matches!(err.kind(), PoolInitialisationErrorKind::ZeroThreads));
    assert_eq!(err.message(), "pools cannot be initialised with no threads");
}

#[test]
fn two_workers_five_tasks() {
    let mut pool = ThreadPool::new(2).expect("two workers");
    for id in 1..=5u64 {
        pool.execute(Task::new(id));
    }
    pool.shutdown();

    let mut log = pool.executed.clone();
    assert_eq!(5, log.len());
    log.sort();
    assert_eq!(log, vec![1, 2, 3, 4, 5]);
    assert!(pool.workers.iter().all(|w| matches!(w.phase, WorkerPhase::Terminated)));
}

#[test]
fn fault_containment() {
    let mut pool = ThreadPool::new(1).expect("one worker");
    pool.execute(Task::faulting(1));
    pool.execute(Task::new(2));
    pool.shutdown();

    assert_eq!(pool.executed, vec![2]);
    assert_eq!(pool.faulted, vec![1]);
    assert!(pool.workers.iter().all(|w| matches!(w.phase, WorkerPhase::Terminated)));
}

#[test]
fn shutdown_stops_every_worker_and_is_idempotent() {
    let mut pool = ThreadPool::new(3).expect("three workers");
    pool.execute(Task::new(7));
    pool.shutdown();

    assert_eq!(0, pool.channel.len());
    assert!(pool.workers.iter().all(|w| matches!(w.phase, WorkerPhase::Terminated)));
    assert_eq!(pool.executed, vec![7]);

    pool.shutdown();
    assert_eq!(pool.executed, vec![7]);
    assert_eq!(3, pool.worker_count());
}

#[test]
fn channel_delivers_in_order_exactly_once() {
    let mut channel = Channel::new();
    channel.send(Message::Run(Task::new(1)));
    channel.send(Message::Stop);
    assert_eq!(2, channel.len());

    assert_eq!(Message::Run(Task::new(1)), channel.receive());
    assert_eq!(Message::Stop, channel.receive());
    assert_eq!(0, channel.len());
}

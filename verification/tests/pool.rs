use threadpool::pool::resolve_size;
use threadpool::{Message, Outcome, PoolState, ThreadPool, Worker, WorkerPhase};

type Job = Box<dyn FnOnce() + Send + 'static>;

/// Plays the part of the worker threads after a shutdown was asked for: the
/// workers take turns, each one running what it is handed, until every one of
/// them has stopped. Returns how many jobs were run.
fn drain(pool: &mut ThreadPool<Job, ()>) -> usize {
    let mut jobs = 0;
    while pool.state() != PoolState::Terminated {
        for id in 0..pool.size() {
            if let Some(message) = pool.receive(id) {
                match Worker::process(message) {
                    Outcome::Finished((), _) => jobs += 1,
                    Outcome::Exit => {}
                }
            }
        }
    }
    jobs
}

#[test]
fn it_works() {
    let mut pool: ThreadPool<Job, ()> = ThreadPool::new(4, 1);
    let result: u8 = 0;
    let a: u8 = 1;
    let b: u8 = 3;
    pool.execute(Box::new(move || {
        let result = a + b;
        assert_eq!(result, 4);
    }));

    assert_eq!(result, 0);

    pool.join();
    assert_eq!(drain(&mut pool), 1);
}

#[test]
fn join() {
    let mut pool: ThreadPool<Job, ()> = ThreadPool::new(4, 1);
    let result: u8 = 0;
    let a: u8 = 1;
    let b: u8 = 3;
    pool.execute(Box::new(move || {
        let result = a + b;
        assert_eq!(result, 4);
    }));
    let threads = pool.join();
    assert_eq!(threads, vec![0, 1, 2, 3]);
    assert_eq!(drain(&mut pool), 1);

    assert_eq!(result, 0);
    assert_eq!(pool.state(), PoolState::Terminated);
}

#[test]
fn execute_is_not_open_after_join() {
    let mut pool: ThreadPool<Job, ()> = ThreadPool::new(4, 1);
    pool.execute(Box::new(|| {}));
    assert!(pool.is_running());
    pool.join();
    assert!(!pool.is_running());
    assert_eq!(pool.state(), PoolState::ShuttingDown);
    drain(&mut pool);
    assert!(!pool.is_running());
    assert_eq!(pool.state(), PoolState::Terminated);
}

#[test]
fn size_zero_stands_for_the_core_count() {
    let pool: ThreadPool<u32, ()> = ThreadPool::new(0, 6);
    assert_eq!(pool.size(), 6);
    let pool: ThreadPool<u32, ()> = ThreadPool::new(0, 1);
    assert_eq!(pool.size(), 1);
    let pool: ThreadPool<u32, ()> = ThreadPool::new_with_debug(0, 12);
    assert_eq!(pool.size(), 12);
}

#[test]
fn a_positive_size_is_kept() {
    let pool: ThreadPool<u32, ()> = ThreadPool::new(3, 8);
    assert_eq!(pool.size(), 3);
    let pool: ThreadPool<u32, ()> = ThreadPool::new(1, 0);
    assert_eq!(pool.size(), 1);
    let pool: ThreadPool<u32, ()> = ThreadPool::new_with_debug(16, 8);
    assert_eq!(pool.size(), 16);
}

#[test]
fn resolve_size_values() {
    assert_eq!(resolve_size(0, 8), 8);
    assert_eq!(resolve_size(4, 8), 4);
    assert_eq!(resolve_size(1, 0), 1);
    assert_eq!(resolve_size(usize::MAX, 2), usize::MAX);
}

#[test]
fn a_new_pool_runs_with_idle_workers() {
    let pool: ThreadPool<u32, ()> = ThreadPool::new(4, 1);
    assert!(pool.is_running());
    assert!(!pool.debug());
    assert_eq!(pool.state(), PoolState::Running);
    assert_eq!(pool.queued(), 0);
    for id in 0..4 {
        assert_eq!(
            pool.worker(id),
            Worker { id, thread: Some(id), phase: WorkerPhase::Idle }
        );
    }
}

#[test]
fn debug_is_only_a_flag() {
    let mut quiet: ThreadPool<u32, ()> = ThreadPool::new(2, 1);
    let mut loud: ThreadPool<u32, ()> = ThreadPool::new_with_debug(2, 1);
    assert!(!quiet.debug());
    assert!(loud.debug());
    quiet.execute(5);
    loud.execute(5);
    assert_eq!(quiet.receive(1), loud.receive(1));
    assert_eq!(quiet.join(), loud.join());
    assert_eq!(quiet.queued(), loud.queued());
}

#[test]
fn jobs_leave_in_submission_order() {
    let mut pool: ThreadPool<u32, u8> = ThreadPool::new(3, 1);
    pool.execute(10);
    pool.execute_with_reply(20, 7);
    pool.execute(30);
    assert_eq!(pool.queued(), 3);
    assert_eq!(pool.receive(2), Some(Message::NewJob(10, None)));
    assert_eq!(pool.receive(0), Some(Message::NewJob(20, Some(7))));
    assert_eq!(pool.receive(2), Some(Message::NewJob(30, None)));
    assert_eq!(pool.receive(1), None);
    assert_eq!(pool.queued(), 0);
}

#[test]
fn any_worker_gets_the_oldest_message() {
    for id in 0..4 {
        let mut pool: ThreadPool<u32, ()> = ThreadPool::new(4, 1);
        pool.execute(1);
        pool.execute(2);
        assert_eq!(pool.receive(id), Some(Message::NewJob(1, None)));
        assert_eq!(pool.worker(id).phase, WorkerPhase::Busy);
        assert_eq!(pool.queued(), 1);
    }
}

#[test]
fn an_empty_queue_leaves_the_worker_idle() {
    let mut pool: ThreadPool<u32, ()> = ThreadPool::new(2, 1);
    assert_eq!(pool.receive(0), None);
    assert_eq!(pool.worker(0).phase, WorkerPhase::Idle);
    pool.execute(9);
    assert_eq!(pool.receive(0), Some(Message::NewJob(9, None)));
    assert_eq!(pool.worker(0).phase, WorkerPhase::Busy);
    assert_eq!(pool.receive(0), None);
    assert_eq!(pool.worker(0).phase, WorkerPhase::Idle);
    assert_eq!(pool.worker(1).phase, WorkerPhase::Idle);
}

#[test]
fn join_sends_one_stop_order_per_worker() {
    let mut pool: ThreadPool<u32, ()> = ThreadPool::new(3, 1);
    pool.execute(1);
    pool.execute(2);
    let threads = pool.join();
    assert_eq!(threads, vec![0, 1, 2]);
    assert_eq!(pool.queued(), 5);
    for id in 0..3 {
        assert_eq!(pool.worker(id).thread, None);
        assert_eq!(pool.worker(id).phase, WorkerPhase::Idle);
    }
    assert_eq!(pool.receive(0), Some(Message::NewJob(1, None)));
    assert_eq!(pool.receive(1), Some(Message::NewJob(2, None)));
    assert_eq!(pool.receive(2), Some(Message::Terminate));
    assert_eq!(pool.receive(1), Some(Message::Terminate));
    assert_eq!(pool.receive(0), Some(Message::Terminate));
    assert_eq!(pool.queued(), 0);
}

#[test]
fn a_second_join_changes_nothing() {
    let mut pool: ThreadPool<u32, ()> = ThreadPool::new(2, 1);
    pool.execute(1);
    assert_eq!(pool.join(), vec![0, 1]);
    assert_eq!(pool.queued(), 3);
    assert_eq!(pool.join(), Vec::<usize>::new());
    assert_eq!(pool.queued(), 3);
    assert_eq!(pool.state(), PoolState::ShuttingDown);
    assert_eq!(pool.receive(0), Some(Message::NewJob(1, None)));
    assert_eq!(pool.receive(0), Some(Message::Terminate));
    assert_eq!(pool.receive(1), Some(Message::Terminate));
    assert_eq!(pool.state(), PoolState::Terminated);
    assert_eq!(pool.join(), Vec::<usize>::new());
    assert_eq!(pool.queued(), 0);
    assert_eq!(pool.state(), PoolState::Terminated);
}

#[test]
fn a_stopped_worker_receives_nothing() {
    let mut pool: ThreadPool<u32, ()> = ThreadPool::new(2, 1);
    pool.join();
    assert_eq!(pool.receive(1), Some(Message::Terminate));
    assert_eq!(pool.worker(1).phase, WorkerPhase::Exited);
    assert_eq!(pool.queued(), 1);
    assert_eq!(pool.receive(1), None);
    assert_eq!(pool.worker(1).phase, WorkerPhase::Exited);
    assert_eq!(pool.queued(), 1);
    assert_eq!(pool.state(), PoolState::ShuttingDown);
    assert_eq!(pool.receive(0), Some(Message::Terminate));
    assert_eq!(pool.state(), PoolState::Terminated);
}

#[test]
fn no_worker_is_left_after_shutdown() {
    let mut pool: ThreadPool<Job, ()> = ThreadPool::new(4, 1);
    for _ in 0..10 {
        pool.execute(Box::new(|| {}));
    }
    pool.join();
    assert_eq!(pool.queued(), 14);
    assert_eq!(drain(&mut pool), 10);
    assert_eq!(pool.state(), PoolState::Terminated);
    assert_eq!(pool.queued(), 0);
    for id in 0..4 {
        assert_eq!(pool.worker(id), Worker { id, thread: None, phase: WorkerPhase::Exited });
    }
}

#[test]
fn one_worker_alone_drains_the_queue() {
    let mut pool: ThreadPool<u32, ()> = ThreadPool::new(1, 1);
    pool.execute(1);
    pool.execute(2);
    pool.execute(3);
    assert_eq!(pool.join(), vec![0]);
    assert_eq!(pool.receive(0), Some(Message::NewJob(1, None)));
    assert_eq!(pool.receive(0), Some(Message::NewJob(2, None)));
    assert_eq!(pool.receive(0), Some(Message::NewJob(3, None)));
    assert_eq!(pool.state(), PoolState::ShuttingDown);
    assert_eq!(pool.receive(0), Some(Message::Terminate));
    assert_eq!(pool.state(), PoolState::Terminated);
}

#[test]
fn a_job_checking_its_own_value_runs_on_the_worker() {
    let mut pool: ThreadPool<Job, ()> = ThreadPool::new(4, 1);
    pool.execute(Box::new(|| {
        let computed: u32 = (1..=10).sum();
        assert_eq!(computed, 55);
    }));
    let message = pool.receive(3).unwrap();
    assert!(message.is_job());
    assert_eq!(Worker::process(message), Outcome::Finished((), None));
}

#[test]
fn shutdown_completes_under_every_schedule() {
    let turns = 5;
    let mut complete = 0;
    for code in 0..3usize.pow(turns) {
        let mut pool: ThreadPool<u32, ()> = ThreadPool::new(3, 1);
        pool.execute(1);
        pool.execute(2);
        pool.join();
        assert_eq!(pool.queued(), turns as usize);
        let mut rest = code;
        let mut handed = Vec::new();
        let mut live_turns_only = true;
        for _ in 0..turns {
            let id = rest % 3;
            rest /= 3;
            if pool.worker(id).phase == WorkerPhase::Exited {
                live_turns_only = false;
                break;
            }
            handed.push(pool.receive(id).unwrap());
        }
        if live_turns_only {
            complete += 1;
            assert_eq!(pool.state(), PoolState::Terminated);
            assert_eq!(pool.queued(), 0);
            assert_eq!(
                handed,
                vec![
                    Message::NewJob(1, None),
                    Message::NewJob(2, None),
                    Message::Terminate,
                    Message::Terminate,
                    Message::Terminate,
                ]
            );
        } else {
            assert_eq!(pool.state(), PoolState::ShuttingDown);
        }
    }
    assert_eq!(complete, 9 * 6);
}

#[test]
fn a_running_pool_takes_jobs_while_workers_are_busy() {
    let mut pool: ThreadPool<u32, ()> = ThreadPool::new(1, 1);
    pool.execute(1);
    assert_eq!(pool.receive(0), Some(Message::NewJob(1, None)));
    pool.execute(2);
    pool.execute(3);
    assert_eq!(pool.queued(), 2);
    assert_eq!(pool.state(), PoolState::Running);
    assert_eq!(pool.receive(0), Some(Message::NewJob(2, None)));
    assert_eq!(pool.receive(0), Some(Message::NewJob(3, None)));
    assert_eq!(pool.receive(0), None);
    assert_eq!(pool.state(), PoolState::Running);
}

use dupfind::error::PoolError;
use dupfind::job_queue::Received;
use dupfind::thread_pool::ThreadPool;
use dupfind::worker::WorkerState;
use std::cell::RefCell;
use std::rc::Rc;

fn take_job<J>(pool: &mut ThreadPool<J>, worker: usize) -> Option<J> {
    match pool.worker_receive(worker) {
        Received::Job(job) => Some(job),
        _ => None,
    }
}

/// Lets the workers take turns until all have terminated, and returns the
/// jobs in the order in which they were handed out, each with its worker.
fn drain(pool: &mut ThreadPool<u32>) -> Vec<(usize, u32)> {
    let mut log = Vec::new();
    let size = pool.size();
    let mut rounds = 0;
    while !pool.is_terminated() {
        for w in 0..size {
            match pool.worker_state(w) {
                Some(WorkerState::Waiting) => {
                    if let Received::Job(job) = pool.worker_receive(w) {
                        log.push((w, job));
                    }
                }
                Some(WorkerState::Executing) => pool.worker_done(w),
                _ => {}
            }
        }
        rounds += 1;
        assert!(rounds < 10_000);
    }
    log
}

#[test]
fn a_pool_without_workers_is_refused() {
    let r = ThreadPool::<u32>::new(0);
    assert!(matches!(r, Err(PoolError::InvalidArgument)));
}

#[test]
fn a_new_pool_is_active_with_waiting_workers() {
    let pool = ThreadPool::<u32>::new(3).unwrap();
    assert_eq!(pool.size(), 3);
    assert!(!pool.is_closed());
    assert!(!pool.is_terminated());
    assert_eq!(pool.pending(), 0);
    for w in 0..3 {
        assert_eq!(pool.worker_state(w), Some(WorkerState::Waiting));
    }
    assert_eq!(pool.worker_state(3), None);
}

#[test]
fn a_pool_of_one_worker_is_accepted() {
    let pool = ThreadPool::<u32>::new(1).unwrap();
    assert_eq!(pool.size(), 1);
    assert_eq!(pool.worker_state(0), Some(WorkerState::Waiting));
    assert_eq!(pool.worker_state(1), None);
}

#[test]
fn execute_puts_the_job_in_the_queue() {
    let mut pool = ThreadPool::<u32>::new(2).unwrap();
    assert_eq!(pool.execute(10), Ok(()));
    assert_eq!(pool.execute(11), Ok(()));
    assert_eq!(pool.pending(), 2);
    assert_eq!(pool.worker_state(0), Some(WorkerState::Waiting));
    assert_eq!(pool.worker_state(1), Some(WorkerState::Waiting));
}

#[test]
fn execute_after_shutdown_is_refused_and_queues_nothing() {
    let mut pool = ThreadPool::<u32>::new(2).unwrap();
    assert_eq!(pool.execute(1), Ok(()));
    pool.shutdown();
    assert!(pool.is_closed());
    assert_eq!(pool.execute(2), Err(PoolError::PoolClosed));
    assert_eq!(pool.execute(3), Err(PoolError::PoolClosed));
    assert_eq!(pool.pending(), 1);
    let log = drain(&mut pool);
    assert_eq!(log, vec![(0, 1)]);
}

#[test]
fn jobs_queued_before_shutdown_still_run() {
    let mut pool = ThreadPool::<u32>::new(1).unwrap();
    for job in 0..5 {
        assert_eq!(pool.execute(job), Ok(()));
    }
    pool.shutdown();
    assert_eq!(pool.pending(), 5);
    let log = drain(&mut pool);
    assert_eq!(log, vec![(0, 0), (0, 1), (0, 2), (0, 3), (0, 4)]);
    assert!(pool.is_terminated());
    assert_eq!(pool.pending(), 0);
}

#[test]
fn shutdown_twice_changes_nothing_more() {
    let mut pool = ThreadPool::<u32>::new(2).unwrap();
    pool.execute(7).unwrap();
    pool.shutdown();
    pool.shutdown();
    assert!(pool.is_closed());
    assert_eq!(pool.pending(), 1);
    assert_eq!(pool.size(), 2);
    assert_eq!(take_job(&mut pool, 1), Some(7));
}

#[test]
fn a_worker_waits_while_an_active_pool_is_empty() {
    let mut pool = ThreadPool::<u32>::new(2).unwrap();
    assert!(matches!(pool.worker_receive(0), Received::Empty));
    assert_eq!(pool.worker_state(0), Some(WorkerState::Waiting));
    pool.execute(5).unwrap();
    assert!(matches!(pool.worker_receive(0), Received::Job(5)));
    assert_eq!(pool.worker_state(0), Some(WorkerState::Executing));
}

#[test]
fn a_worker_terminates_once_the_pool_is_closed_and_drained() {
    let mut pool = ThreadPool::<u32>::new(2).unwrap();
    pool.execute(5).unwrap();
    pool.shutdown();
    assert!(matches!(pool.worker_receive(0), Received::Job(5)));
    assert!(matches!(pool.worker_receive(1), Received::Closed));
    assert_eq!(pool.worker_state(1), Some(WorkerState::Terminated));
    assert!(!pool.is_terminated());
    pool.worker_done(0);
    assert_eq!(pool.worker_state(0), Some(WorkerState::Waiting));
    assert!(matches!(pool.worker_receive(0), Received::Closed));
    assert!(pool.is_terminated());
}

#[test]
fn jobs_leave_the_queue_in_submission_order() {
    let mut pool = ThreadPool::<u32>::new(3).unwrap();
    for job in [30, 10, 20] {
        pool.execute(job).unwrap();
    }
    assert_eq!(take_job(&mut pool, 2), Some(30));
    assert_eq!(take_job(&mut pool, 0), Some(10));
    assert_eq!(take_job(&mut pool, 1), Some(20));
    assert_eq!(pool.pending(), 0);
}

#[test]
fn every_job_runs_exactly_once_for_each_pool_size() {
    for size in 1..=5usize {
        for jobs in [0u32, 1, 4, 17] {
            let mut pool = ThreadPool::<u32>::new(size).unwrap();
            for id in 0..jobs {
                assert_eq!(pool.execute(id), Ok(()));
            }
            pool.shutdown();
            let log = drain(&mut pool);
            assert!(pool.is_terminated());
            assert_eq!(pool.size(), size);
            let mut ids: Vec<u32> = log.iter().map(|entry| entry.1).collect();
            assert_eq!(ids.len(), jobs as usize);
            ids.sort();
            ids.dedup();
            assert_eq!(ids, (0..jobs).collect::<Vec<u32>>());
        }
    }
}

#[test]
fn interleaved_producers_get_every_job_run_once() {
    let mut pool = ThreadPool::<u32>::new(3).unwrap();
    let producers: u32 = 4;
    let each: u32 = 6;
    let mut log = Vec::new();
    for turn in 0..each {
        for p in 0..producers {
            assert_eq!(pool.execute(p * 100 + turn), Ok(()));
        }
        // a worker takes a job between two rounds of submissions
        let w = (turn % 3) as usize;
        if pool.worker_state(w) == Some(WorkerState::Executing) {
            pool.worker_done(w);
        }
        if let Received::Job(job) = pool.worker_receive(w) {
            log.push((w, job));
        }
    }
    pool.shutdown();
    log.extend(drain(&mut pool));
    let mut ids: Vec<u32> = log.iter().map(|entry| entry.1).collect();
    ids.sort();
    let mut expected: Vec<u32> = Vec::new();
    for p in 0..producers {
        for turn in 0..each {
            expected.push(p * 100 + turn);
        }
    }
    assert_eq!(ids, expected);
}

#[test]
fn two_workers_run_four_jobs_in_two_rounds() {
    let counter = Rc::new(RefCell::new(0u32));
    let mut pool = ThreadPool::<Box<dyn FnOnce()>>::new(2).unwrap();
    for _ in 0..4 {
        let counter = Rc::clone(&counter);
        let job: Box<dyn FnOnce()> = Box::new(move || {
            *counter.borrow_mut() += 1;
        });
        assert!(pool.execute(job).is_ok());
    }
    pool.shutdown();
    let mut rounds = 0;
    loop {
        let first = take_job(&mut pool, 0);
        let second = take_job(&mut pool, 1);
        if first.is_none() && second.is_none() {
            break;
        }
        // both workers hold a job at the same time
        assert_eq!(pool.worker_state(0), Some(WorkerState::Executing));
        assert_eq!(pool.worker_state(1), Some(WorkerState::Executing));
        first.unwrap()();
        second.unwrap()();
        pool.worker_done(0);
        pool.worker_done(1);
        rounds += 1;
    }
    assert!(pool.is_terminated());
    assert_eq!(*counter.borrow(), 4);
    assert_eq!(rounds, 2);
}

#[test]
fn a_busy_worker_holds_one_job_while_the_others_take_the_rest() {
    let mut pool = ThreadPool::<u32>::new(2).unwrap();
    for job in 0..3 {
        pool.execute(job).unwrap();
    }
    assert_eq!(take_job(&mut pool, 0), Some(0));
    // worker 0 stays busy; worker 1 runs the others one at a time
    assert_eq!(take_job(&mut pool, 1), Some(1));
    pool.worker_done(1);
    assert_eq!(take_job(&mut pool, 1), Some(2));
    pool.worker_done(1);
    assert!(matches!(pool.worker_receive(1), Received::Empty));
    pool.shutdown();
    assert!(matches!(pool.worker_receive(1), Received::Closed));
    assert!(!pool.is_terminated());
    pool.worker_done(0);
    assert!(matches!(pool.worker_receive(0), Received::Closed));
    assert!(pool.is_terminated());
}

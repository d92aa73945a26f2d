use rust_web_server::multithreading::channel::{DispatchChannel, Received};
use rust_web_server::multithreading::threadpool::{PoolError, ThreadPool};
use rust_web_server::multithreading::worker::{Step, Worker, WorkerState};
use std::cell::{Cell, RefCell};
use std::rc::Rc;

type Job = Box<dyn FnOnce()>;

/// Lets the workers take turns until each has left its loop; a worker that
/// is told to wait before the shutdown is simply asked again later.
fn run_to_the_end(pool: &mut ThreadPool<Job>) {
    while !pool.is_finished() {
        for id in 0..pool.size() {
            if let Step::Run(job) = pool.step(id) {
                job();
            }
        }
    }
}

#[test]
fn test_threadpool_new_panics_with_zero_size() {
    assert!(ThreadPool::<Job>::new(0).is_err())
}

#[test]
fn test_worker_new_and_execute() {
    let mut channel: DispatchChannel<Job> = DispatchChannel::new();
    let mut worker = Worker::new(0);
    channel.send(Box::new(|| {})).ok().unwrap();
    channel.close();
    loop {
        match worker.step(&mut channel) {
            Step::Run(job) => job(),
            Step::Wait => panic!("a closed channel lets nobody wait"),
            Step::Exit => break,
        }
    }
    assert_eq!(worker.state(), WorkerState::Terminated);
}

#[test]
fn test_threadpool_new() {
    let _pool = ThreadPool::<Job>::new(4).ok().unwrap();
}

#[test]
fn test_threadpool_execute() {
    let mut pool = ThreadPool::new(4).ok().unwrap();
    pool.execute(|| {}).unwrap();
}

#[test]
fn test_threadpool_drop() {
    let pool = ThreadPool::<Job>::new(4).ok().unwrap();
    drop(pool);
}

#[test]
fn pool_has_one_worker_for_each_ordinal() {
    for size in 1..=16usize {
        let pool = ThreadPool::<u32>::new(size).ok().unwrap();
        assert_eq!(pool.size(), size);
        let mut seen = vec![false; size];
        for place in 0..size {
            let worker = pool.worker(place).unwrap();
            assert_eq!(worker.id(), place);
            assert_eq!(worker.state(), WorkerState::Waiting);
            assert!(!worker.has_faulted());
            assert!(!seen[worker.id()]);
            seen[worker.id()] = true;
        }
        assert!(seen.iter().all(|s| *s));
        assert!(pool.worker(size).is_none());
        assert_eq!(pool.queued(), 0);
        assert!(!pool.is_shut_down());
        assert!(!pool.is_finished());
    }
}

#[test]
fn pool_of_no_workers_is_always_refused() {
    for _ in 0..10 {
        assert_eq!(ThreadPool::<u32>::new(0).err(), Some(PoolError::ZeroSize));
    }
}

#[test]
fn single_worker_runs_jobs_in_submission_order() {
    let log: Rc<RefCell<Vec<&'static str>>> = Rc::new(RefCell::new(Vec::new()));
    let mut pool: ThreadPool<Job> = ThreadPool::new(1).ok().unwrap();
    for name in ["J1", "J2", "J3"] {
        let log = Rc::clone(&log);
        pool.execute(Box::new(move || log.borrow_mut().push(name))).unwrap();
    }
    assert_eq!(pool.shutdown(), vec![0]);
    run_to_the_end(&mut pool);
    assert_eq!(*log.borrow(), vec!["J1", "J2", "J3"]);
}

#[test]
fn jobs_are_handed_out_oldest_first() {
    let mut pool = ThreadPool::<u32>::new(3).ok().unwrap();
    for job in [10, 20, 30, 40] {
        pool.execute(job).unwrap();
    }
    assert_eq!(pool.queued(), 4);
    assert_eq!(pool.step(2), Step::Run(10));
    assert_eq!(pool.step(0), Step::Run(20));
    assert_eq!(pool.worker(2).unwrap().state(), WorkerState::Executing);
    assert_eq!(pool.worker(1).unwrap().state(), WorkerState::Waiting);
    assert_eq!(pool.step(2), Step::Run(30));
    assert_eq!(pool.step(1), Step::Run(40));
    assert_eq!(pool.queued(), 0);
    assert_eq!(pool.step(1), Step::Wait);
    assert_eq!(pool.worker(1).unwrap().state(), WorkerState::Waiting);
    pool.execute(50).unwrap();
    assert_eq!(pool.step(1), Step::Run(50));
}

#[test]
fn every_job_runs_exactly_once() {
    for size in 1..=5usize {
        for jobs in [0usize, 1, 2, 7, 40] {
            let runs: Rc<RefCell<Vec<u32>>> = Rc::new(RefCell::new(vec![0; jobs]));
            let mut pool: ThreadPool<Job> = ThreadPool::new(size).ok().unwrap();
            for job in 0..jobs {
                let runs = Rc::clone(&runs);
                pool.execute(Box::new(move || runs.borrow_mut()[job] += 1)).unwrap();
                if job % 3 == 0 {
                    if let Step::Run(taken) = pool.step(job % size) {
                        taken();
                    }
                }
            }
            assert_eq!(pool.shutdown().len(), size);
            run_to_the_end(&mut pool);
            assert!(pool.is_finished());
            assert_eq!(pool.queued(), 0);
            assert_eq!(*runs.borrow(), vec![1; jobs]);
        }
    }
}

#[test]
fn jobs_of_several_producers_are_all_counted() {
    let counter = Rc::new(Cell::new(0u32));
    let mut pool: ThreadPool<Job> = ThreadPool::new(4).ok().unwrap();
    let producers = 3;
    let each = 25;
    for round in 0..each {
        for producer in 0..producers {
            let counter = Rc::clone(&counter);
            pool.execute(Box::new(move || counter.set(counter.get() + 1))).unwrap();
            if (round + producer) % 2 == 0 {
                if let Step::Run(job) = pool.step(producer) {
                    job();
                }
            }
        }
    }
    pool.shutdown();
    run_to_the_end(&mut pool);
    assert_eq!(counter.get(), 75);
}

#[test]
fn shutdown_twice_joins_once() {
    let mut pool = ThreadPool::<u32>::new(3).ok().unwrap();
    pool.execute(1).unwrap();
    assert_eq!(pool.shutdown(), vec![0, 1, 2]);
    assert!(pool.is_shut_down());
    assert_eq!(pool.queued(), 1);
    assert_eq!(pool.shutdown(), Vec::<usize>::new());
    assert!(pool.is_shut_down());
    assert_eq!(pool.queued(), 1);
    assert_eq!(pool.step(0), Step::Run(1));
}

#[test]
fn job_after_shutdown_is_refused() {
    let mut pool = ThreadPool::<u32>::new(2).ok().unwrap();
    pool.execute(1).unwrap();
    pool.shutdown();
    assert_eq!(pool.execute(2), Err(PoolError::ShutDown));
    assert_eq!(pool.queued(), 1);
    assert_eq!(pool.step(0), Step::Run(1));
    assert_eq!(pool.step(1), Step::Exit);
    assert_eq!(pool.execute(3), Err(PoolError::ShutDown));
    assert_eq!(pool.step(0), Step::Exit);
    assert!(pool.is_finished());
}

#[test]
fn shutdown_discards_no_queued_job() {
    let mut pool = ThreadPool::<u32>::new(2).ok().unwrap();
    for job in 0..5 {
        pool.execute(job).unwrap();
    }
    pool.shutdown();
    let mut taken = Vec::new();
    while let Step::Run(job) = pool.step(1) {
        taken.push(job);
    }
    assert_eq!(taken, vec![0, 1, 2, 3, 4]);
    assert_eq!(pool.worker(1).unwrap().state(), WorkerState::Terminated);
    assert!(!pool.is_finished());
    assert_eq!(pool.step(0), Step::Exit);
    assert!(pool.is_finished());
}

#[test]
fn faulted_worker_leaves_the_others_at_work() {
    let mut pool = ThreadPool::<u32>::new(2).ok().unwrap();
    for job in 0..3 {
        pool.execute(job).unwrap();
    }
    assert_eq!(pool.step(0), Step::Run(0));
    pool.fault(0);
    let worker = pool.worker(0).unwrap();
    assert_eq!(worker.state(), WorkerState::Terminated);
    assert!(worker.has_faulted());
    assert_eq!(pool.size(), 2);
    assert_eq!(pool.queued(), 2);
    assert_eq!(pool.step(0), Step::Exit);
    assert_eq!(pool.queued(), 2);
    assert_eq!(pool.step(1), Step::Run(1));
    assert_eq!(pool.step(1), Step::Run(2));
    pool.shutdown();
    assert_eq!(pool.step(1), Step::Exit);
    assert!(pool.is_finished());
    assert!(!pool.worker(1).unwrap().has_faulted());
}

#[test]
fn pool_whose_workers_all_faulted_leaves_jobs_waiting() {
    let mut pool = ThreadPool::<u32>::new(1).ok().unwrap();
    pool.execute(1).unwrap();
    pool.execute(2).unwrap();
    assert_eq!(pool.step(0), Step::Run(1));
    pool.fault(0);
    pool.shutdown();
    assert!(pool.is_finished());
    assert_eq!(pool.queued(), 1);
}

#[test]
fn fault_of_a_terminated_or_unknown_worker_changes_nothing() {
    let mut pool = ThreadPool::<u32>::new(2).ok().unwrap();
    pool.shutdown();
    assert_eq!(pool.step(0), Step::Exit);
    pool.fault(0);
    assert!(!pool.worker(0).unwrap().has_faulted());
    pool.fault(7);
    assert_eq!(pool.worker(1).unwrap().state(), WorkerState::Waiting);
    assert_eq!(pool.step(7), Step::Exit);
    assert_eq!(pool.size(), 2);
}

#[test]
fn worker_steps_through_its_states() {
    let mut channel: DispatchChannel<u32> = DispatchChannel::new();
    let mut worker = Worker::new(5);
    assert_eq!(worker.id(), 5);
    assert_eq!(worker.state(), WorkerState::Waiting);
    assert_eq!(worker.step(&mut channel), Step::Wait);
    assert_eq!(worker.state(), WorkerState::Waiting);
    channel.send(1).unwrap();
    assert_eq!(worker.step(&mut channel), Step::Run(1));
    assert_eq!(worker.state(), WorkerState::Executing);
    assert_eq!(worker.step(&mut channel), Step::Wait);
    assert_eq!(worker.state(), WorkerState::Waiting);
    channel.close();
    assert_eq!(worker.step(&mut channel), Step::Exit);
    assert_eq!(worker.state(), WorkerState::Terminated);
    assert!(!worker.has_faulted());
    assert_eq!(worker.id(), 5);
}

#[test]
fn worker_fault_ends_the_worker() {
    let mut channel: DispatchChannel<u32> = DispatchChannel::new();
    channel.send(1).unwrap();
    channel.send(2).unwrap();
    let mut worker = Worker::new(0);
    assert_eq!(worker.step(&mut channel), Step::Run(1));
    worker.fault();
    assert_eq!(worker.state(), WorkerState::Terminated);
    assert!(worker.has_faulted());
    assert_eq!(worker.step(&mut channel), Step::Exit);
    assert_eq!(channel.len(), 1);
}

#[test]
fn channel_is_first_in_first_out() {
    let mut channel: DispatchChannel<&'static str> = DispatchChannel::new();
    assert_eq!(channel.len(), 0);
    assert!(!channel.is_closed());
    assert_eq!(channel.recv(), Received::Empty);
    assert_eq!(channel.send("a"), Ok(()));
    assert_eq!(channel.send("b"), Ok(()));
    assert_eq!(channel.send("c"), Ok(()));
    assert_eq!(channel.len(), 3);
    assert_eq!(channel.recv(), Received::Job("a"));
    assert_eq!(channel.send("d"), Ok(()));
    assert_eq!(channel.recv(), Received::Job("b"));
    assert_eq!(channel.recv(), Received::Job("c"));
    assert_eq!(channel.recv(), Received::Job("d"));
    assert_eq!(channel.recv(), Received::Empty);
}

#[test]
fn closed_channel_delivers_what_was_queued() {
    let mut channel: DispatchChannel<u32> = DispatchChannel::new();
    channel.send(1).unwrap();
    channel.send(2).unwrap();
    channel.close();
    assert!(channel.is_closed());
    assert_eq!(channel.len(), 2);
    assert_eq!(channel.send(3), Err(3));
    assert_eq!(channel.len(), 2);
    channel.close();
    assert!(channel.is_closed());
    assert_eq!(channel.recv(), Received::Job(1));
    assert_eq!(channel.recv(), Received::Job(2));
    assert_eq!(channel.recv(), Received::Closed);
    assert_eq!(channel.recv(), Received::Closed);
}

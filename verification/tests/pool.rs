use hello::worker::{ExitReason, Step, WorkerState};
use hello::{PoolCreationError, ThreadPool};
use std::cell::RefCell;
use std::rc::Rc;

type Job = Box<dyn FnOnce()>;

fn logging_job(log: &Rc<RefCell<Vec<usize>>>, number: usize) -> Job {
    let log = Rc::clone(log);
    Box::new(move || log.borrow_mut().push(number))
}

/// Lets worker `id` take one turn of its loop, running the job if it gets one.
fn turn(pool: &mut ThreadPool<Job>, id: usize) -> Option<ExitReason> {
    match pool.receive(id) {
        Step::Run(job) => {
            job();
            pool.complete(id);
            None
        }
        Step::Wait => None,
        Step::Exit(reason) => Some(reason),
    }
}

#[test]
fn a_pool_has_as_many_workers_as_asked_for() {
    for size in [1usize, 2, 4, 17] {
        let pool = ThreadPool::<u32>::new(size).unwrap();
        assert_eq!(pool.size(), size);
        for id in 0..size {
            assert_eq!(pool.worker_state(id), Some(WorkerState::Idle));
        }
        assert_eq!(pool.worker_state(size), None);
        assert_eq!(pool.pending(), 0);
        assert!(pool.is_accepting());
        assert!(!pool.is_shut_down());
    }
}

#[test]
fn zero_workers_are_refused() {
    let outcome: Result<ThreadPool<u32>, PoolCreationError> = ThreadPool::new(0);
    match outcome {
        Ok(_) => panic!("a pool without workers was created"),
        Err(e) => {
            assert_eq!(e.message(), "size must be greater than zero");
            assert_eq!(e.to_string(), "PoolCreationError: size must be greater than zero");
        }
    }
}

#[test]
fn the_refusal_reads_the_same_every_time() {
    let first = ThreadPool::<u32>::new(0).err().unwrap();
    let second = ThreadPool::<Job>::new(0).err().unwrap();
    assert!(!first.message().is_empty());
    assert_eq!(first.message(), second.message());
    assert_eq!(first.to_string(), second.to_string());
}

#[test]
fn one_worker_runs_jobs_in_submission_order() {
    let log = Rc::new(RefCell::new(Vec::new()));
    let mut pool = ThreadPool::<Job>::new(1).unwrap();
    pool.execute(logging_job(&log, 1));
    pool.execute(logging_job(&log, 2));
    pool.execute(logging_job(&log, 3));
    assert_eq!(pool.pending(), 3);
    while pool.pending() > 0 {
        assert_eq!(turn(&mut pool, 0), None);
    }
    assert_eq!(*log.borrow(), vec![1, 2, 3]);
    assert_eq!(pool.worker_state(0), Some(WorkerState::Idle));
}

#[test]
fn a_busy_worker_does_not_hold_up_the_others() {
    let log = Rc::new(RefCell::new(Vec::new()));
    let mut pool = ThreadPool::<Job>::new(4).unwrap();
    pool.execute(logging_job(&log, 100));
    pool.execute(logging_job(&log, 1));
    pool.execute(logging_job(&log, 2));
    pool.execute(logging_job(&log, 3));
    let slow = match pool.receive(0) {
        Step::Run(job) => job,
        _ => panic!("the first worker got no job"),
    };
    assert_eq!(pool.worker_state(0), Some(WorkerState::Running));
    for id in 1..4 {
        assert_eq!(turn(&mut pool, id), None);
        assert_eq!(pool.worker_state(id), Some(WorkerState::Idle));
    }
    assert_eq!(*log.borrow(), vec![1, 2, 3]);
    assert_eq!(pool.worker_state(0), Some(WorkerState::Running));
    assert_eq!(pool.pending(), 0);
    slow();
    pool.complete(0);
    assert_eq!(*log.borrow(), vec![1, 2, 3, 100]);
    assert_eq!(pool.worker_state(0), Some(WorkerState::Idle));
}

#[test]
fn every_job_runs_once_whoever_takes_it() {
    let counts = Rc::new(RefCell::new(vec![0u32; 50]));
    let mut pool = ThreadPool::<Job>::new(3).unwrap();
    for number in 0..50usize {
        let counts = Rc::clone(&counts);
        pool.execute(Box::new(move || counts.borrow_mut()[number] += 1));
        if number % 4 == 3 {
            turn(&mut pool, (number / 4) % 3);
        }
    }
    let mut id = 0;
    while pool.pending() > 0 {
        assert_eq!(turn(&mut pool, id), None);
        id = (id + 2) % 3;
    }
    assert!(counts.borrow().iter().all(|&count| count == 1));
    // with nothing left, asking again hands out nothing
    for id in 0..3 {
        assert!(matches!(pool.receive(id), Step::Wait));
        assert_eq!(pool.worker_state(id), Some(WorkerState::Idle));
    }
    assert!(counts.borrow().iter().all(|&count| count == 1));
}

#[test]
fn jobs_leave_the_queue_oldest_first() {
    let mut pool = ThreadPool::<u32>::new(2).unwrap();
    pool.execute(10);
    pool.execute(20);
    pool.execute(30);
    assert!(matches!(pool.receive(1), Step::Run(10)));
    assert!(matches!(pool.receive(0), Step::Run(20)));
    assert_eq!(pool.pending(), 1);
    pool.complete(0);
    assert!(matches!(pool.receive(0), Step::Run(30)));
    assert_eq!(pool.pending(), 0);
}

#[test]
fn shutdown_sends_one_terminate_for_each_worker() {
    let mut pool = ThreadPool::<u32>::new(4).unwrap();
    pool.execute(1);
    pool.execute(2);
    pool.shutdown();
    assert!(pool.is_shut_down());
    assert!(!pool.is_accepting());
    assert_eq!(pool.pending(), 2 + 4);
}

#[test]
fn a_second_shutdown_changes_nothing() {
    let mut pool = ThreadPool::<u32>::new(3).unwrap();
    pool.execute(1);
    pool.shutdown();
    assert_eq!(pool.pending(), 4);
    pool.shutdown();
    assert_eq!(pool.pending(), 4);
    assert!(matches!(pool.receive(0), Step::Run(1)));
    pool.shutdown();
    assert_eq!(pool.pending(), 3);
    assert_eq!(pool.worker_state(0), Some(WorkerState::Running));
}

#[test]
fn jobs_submitted_before_shutdown_run_before_any_worker_stops() {
    let log = Rc::new(RefCell::new(Vec::new()));
    let mut pool = ThreadPool::<Job>::new(2).unwrap();
    for number in 0..5 {
        pool.execute(logging_job(&log, number));
    }
    pool.shutdown();
    let mut stopped = [false, false];
    let mut id = 0;
    while !(stopped[0] && stopped[1]) {
        if !stopped[id] {
            if let Some(reason) = turn(&mut pool, id) {
                assert_eq!(reason, ExitReason::Told);
                assert_eq!(log.borrow().len(), 5);
                stopped[id] = true;
            }
        }
        id = 1 - id;
    }
    assert_eq!(*log.borrow(), vec![0, 1, 2, 3, 4]);
    assert_eq!(pool.pending(), 0);
    for id in 0..2 {
        assert_eq!(pool.worker_state(id), Some(WorkerState::Terminated(ExitReason::Told)));
    }
}

#[test]
fn threads_are_joined_in_the_order_of_their_numbers_each_once() {
    let mut pool = ThreadPool::<u32>::new(3).unwrap();
    pool.shutdown();
    assert_eq!(pool.join_next(), Some(0));
    assert_eq!(pool.join_next(), Some(1));
    assert_eq!(pool.join_next(), Some(2));
    assert_eq!(pool.join_next(), None);
    assert_eq!(pool.join_next(), None);
}

#[test]
fn no_thread_is_joined_before_shutdown() {
    let mut pool = ThreadPool::<u32>::new(2).unwrap();
    assert_eq!(pool.join_next(), None);
    pool.execute(5);
    assert_eq!(pool.join_next(), None);
    pool.shutdown();
    assert_eq!(pool.join_next(), Some(0));
}

#[test]
fn a_failed_job_costs_one_worker() {
    let mut pool = ThreadPool::<u32>::new(2).unwrap();
    pool.execute(1);
    pool.execute(2);
    pool.execute(3);
    assert!(matches!(pool.receive(0), Step::Run(1)));
    pool.fail(0);
    assert_eq!(pool.worker_state(0), Some(WorkerState::Terminated(ExitReason::JobFailed)));
    assert!(pool.is_accepting());
    assert!(matches!(pool.receive(1), Step::Run(2)));
    pool.complete(1);
    assert!(matches!(pool.receive(1), Step::Run(3)));
    pool.complete(1);
    assert_eq!(pool.worker_state(1), Some(WorkerState::Idle));
}

#[test]
fn a_pool_that_lost_every_worker_takes_no_jobs() {
    let mut pool = ThreadPool::<u32>::new(2).unwrap();
    pool.execute(1);
    pool.execute(2);
    assert!(matches!(pool.receive(0), Step::Run(1)));
    assert!(matches!(pool.receive(1), Step::Run(2)));
    pool.fail(0);
    assert!(pool.is_accepting());
    pool.fail(1);
    assert!(!pool.is_accepting());
    assert!(!pool.is_shut_down());
}

#[test]
fn an_empty_queue_leaves_the_worker_waiting() {
    let mut pool = ThreadPool::<u32>::new(1).unwrap();
    assert!(matches!(pool.receive(0), Step::Wait));
    assert_eq!(pool.worker_state(0), Some(WorkerState::Idle));
    assert_eq!(pool.pending(), 0);
    pool.execute(4);
    assert!(matches!(pool.receive(0), Step::Run(4)));
}

#[test]
fn jobs_of_several_submitters_each_run_once_and_in_each_submitters_order() {
    let log = Rc::new(RefCell::new(Vec::new()));
    let mut pool = ThreadPool::<Job>::new(3).unwrap();
    // two submitters take turns of uneven length; the workers take theirs in between
    let mut next = [0usize, 1000];
    for round in 0..30usize {
        let who = if round % 3 == 0 { 1 } else { 0 };
        pool.execute(logging_job(&log, next[who]));
        next[who] += 1;
        if round % 2 == 1 {
            assert_eq!(turn(&mut pool, round % 3), None);
        }
    }
    let mut id = 0;
    while pool.pending() > 0 {
        assert_eq!(turn(&mut pool, id), None);
        id = (id + 1) % 3;
    }
    let ran = log.borrow().clone();
    assert_eq!(ran.len(), 30);
    let first: Vec<usize> = ran.iter().copied().filter(|&number| number < 1000).collect();
    let second: Vec<usize> = ran.iter().copied().filter(|&number| number >= 1000).collect();
    assert_eq!(first, (0..20).collect::<Vec<usize>>());
    assert_eq!(second, (1000..1010).collect::<Vec<usize>>());
}

#[test]
fn a_worker_that_was_told_to_stop_leaves_the_rest_of_the_queue_to_the_others() {
    let mut pool = ThreadPool::<u32>::new(2).unwrap();
    pool.shutdown();
    assert_eq!(pool.pending(), 2);
    assert!(matches!(pool.receive(1), Step::Exit(ExitReason::Told)));
    assert_eq!(pool.worker_state(1), Some(WorkerState::Terminated(ExitReason::Told)));
    assert_eq!(pool.worker_state(0), Some(WorkerState::Idle));
    assert_eq!(pool.pending(), 1);
    assert!(matches!(pool.receive(0), Step::Exit(ExitReason::Told)));
    assert_eq!(pool.pending(), 0);
    assert!(!pool.is_accepting());
}

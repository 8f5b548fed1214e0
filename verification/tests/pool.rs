use hello::channel::Received;
use hello::model::{PoolError, Shutdown};
use hello::pool::ThreadPool;
use hello::worker::WorkerState;
use std::cell::RefCell;
use std::rc::Rc;
use std::sync::{Arc, Mutex};

type Job = Box<dyn FnOnce()>;

/// Lets worker `id` take the next job and run it to completion. Returns
/// whether there was a job.
fn run_next(pool: &mut ThreadPool<Job>, id: usize) -> bool {
    match pool.receive(id) {
        Received::Job(job) => {
            job();
            pool.complete(id);
            true
        }
        _ => false,
    }
}

#[test]
fn new_pool_has_the_requested_idle_workers() {
    for n in 1..=5usize {
        let pool: ThreadPool<u32> = ThreadPool::new(n);
        assert_eq!(pool.size(), n);
        assert!(pool.is_accepting());
        assert_eq!(pool.pending(), 0);
        assert!(pool.has_live_receiver());
        for id in 0..n {
            assert_eq!(pool.worker_state(id), WorkerState::Idle);
            assert!(!pool.is_joined(id));
        }
    }
}

#[test]
fn every_worker_of_a_new_pool_can_run_a_job() {
    for id in 0..4usize {
        let mut pool: ThreadPool<u32> = ThreadPool::new(4);
        pool.execute(11);
        assert_eq!(pool.receive(id), Received::Job(11));
        assert_eq!(pool.worker_state(id), WorkerState::Busy);
        pool.complete(id);
        assert_eq!(pool.worker_state(id), WorkerState::Idle);
    }
}

#[test]
fn single_worker_runs_a_then_b() {
    let trace: Rc<RefCell<Vec<&'static str>>> = Rc::new(RefCell::new(Vec::new()));
    let mut pool: ThreadPool<Job> = ThreadPool::new(1);

    let log = Rc::clone(&trace);
    pool.execute(Box::new(move || {
        let started = std::time::Instant::now();
        while started.elapsed() < std::time::Duration::from_millis(50) {}
        log.borrow_mut().push("A");
    }));
    let log = Rc::clone(&trace);
    pool.execute(Box::new(move || log.borrow_mut().push("B")));

    assert!(run_next(&mut pool, 0));
    assert_eq!(*trace.borrow(), vec!["A"]);
    assert!(run_next(&mut pool, 0));
    assert_eq!(*trace.borrow(), vec!["A", "B"]);
    assert!(!run_next(&mut pool, 0));
}

#[test]
fn job_waits_while_the_only_worker_is_busy() {
    let mut pool: ThreadPool<&'static str> = ThreadPool::new(1);
    pool.execute("A");
    assert_eq!(pool.receive(0), Received::Job("A"));
    pool.execute("B");
    assert_eq!(pool.pending(), 1);
    assert_eq!(pool.worker_state(0), WorkerState::Busy);
    pool.complete(0);
    assert_eq!(pool.receive(0), Received::Job("B"));
    assert_eq!(pool.pending(), 0);
}

#[test]
fn four_workers_count_to_four() {
    let counter = Arc::new(Mutex::new(0));
    let mut pool: ThreadPool<Job> = ThreadPool::new(4);
    for _ in 0..4 {
        let counter = Arc::clone(&counter);
        pool.execute(Box::new(move || {
            let mut counter = counter.lock().unwrap();
            *counter += 1;
        }));
    }
    let mut running: Vec<Job> = Vec::new();
    for id in 0..4 {
        match pool.receive(id) {
            Received::Job(job) => running.push(job),
            _ => panic!("worker {id} got no job"),
        }
    }
    for (id, job) in running.into_iter().enumerate() {
        job();
        pool.complete(id);
    }
    assert_eq!(pool.shutdown(), Ok(Shutdown::WaitFor(0)));
    for id in 0..4 {
        assert!(!run_next(&mut pool, id));
        assert_eq!(pool.worker_state(id), WorkerState::Stopped);
    }
    assert_eq!(pool.shutdown(), Ok(Shutdown::Complete));
    assert_eq!(*counter.lock().unwrap(), 4);
}

#[test]
fn teardown_drains_ten_queued_jobs() {
    let done = Rc::new(RefCell::new(0usize));
    let mut pool: ThreadPool<Job> = ThreadPool::new(3);
    for _ in 0..10 {
        let done = Rc::clone(&done);
        pool.execute(Box::new(move || *done.borrow_mut() += 1));
    }
    assert_eq!(pool.shutdown(), Ok(Shutdown::WaitFor(0)));
    assert!(!pool.is_accepting());
    assert_eq!(pool.pending(), 10);
    assert_eq!(*done.borrow(), 0);

    let mut ran = 0usize;
    while ran < 10 {
        let id = ran % 3;
        assert!(run_next(&mut pool, id));
        ran += 1;
        assert_eq!(*done.borrow(), ran);
        assert_eq!(pool.pending(), 10 - ran);
        assert_eq!(pool.shutdown(), Ok(Shutdown::WaitFor(0)));
    }
    for id in 0..3 {
        assert_eq!(pool.shutdown(), Ok(Shutdown::WaitFor(id)));
        assert!(matches!(pool.receive(id), Received::Disconnected));
    }
    assert_eq!(pool.shutdown(), Ok(Shutdown::Complete));
    assert_eq!(*done.borrow(), 10);
    for id in 0..3 {
        assert!(pool.is_joined(id));
        assert_eq!(pool.worker_state(id), WorkerState::Stopped);
    }
}

#[test]
fn more_jobs_than_workers_all_run_once() {
    let runs: Rc<RefCell<Vec<usize>>> = Rc::new(RefCell::new(vec![0; 7]));
    let mut pool: ThreadPool<Job> = ThreadPool::new(2);
    for k in 0..7 {
        let runs = Rc::clone(&runs);
        pool.execute(Box::new(move || runs.borrow_mut()[k] += 1));
    }
    let mut id = 0;
    while run_next(&mut pool, id) {
        id = 1 - id;
    }
    assert_eq!(pool.shutdown(), Ok(Shutdown::WaitFor(0)));
    assert!(!run_next(&mut pool, 0));
    assert!(!run_next(&mut pool, 1));
    assert_eq!(pool.shutdown(), Ok(Shutdown::Complete));
    assert_eq!(*runs.borrow(), vec![1; 7]);
}

#[test]
fn fewer_jobs_than_workers_all_run_once() {
    let runs: Rc<RefCell<Vec<usize>>> = Rc::new(RefCell::new(vec![0; 2]));
    let mut pool: ThreadPool<Job> = ThreadPool::new(5);
    for k in 0..2 {
        let runs = Rc::clone(&runs);
        pool.execute(Box::new(move || runs.borrow_mut()[k] += 1));
    }
    assert!(run_next(&mut pool, 4));
    assert!(run_next(&mut pool, 2));
    for id in 0..5 {
        assert!(matches!(pool.receive(id), Received::Empty));
        assert_eq!(pool.worker_state(id), WorkerState::Idle);
    }
    assert_eq!(pool.shutdown(), Ok(Shutdown::WaitFor(0)));
    for id in 0..5 {
        assert!(matches!(pool.receive(id), Received::Disconnected));
    }
    assert_eq!(pool.shutdown(), Ok(Shutdown::Complete));
    assert_eq!(*runs.borrow(), vec![1, 1]);
}

#[test]
fn no_jobs_at_all_tears_down() {
    let mut pool: ThreadPool<u8> = ThreadPool::new(2);
    assert_eq!(pool.shutdown(), Ok(Shutdown::WaitFor(0)));
    assert_eq!(pool.receive(0), Received::Disconnected);
    assert_eq!(pool.shutdown(), Ok(Shutdown::WaitFor(1)));
    assert!(pool.is_joined(0));
    assert!(!pool.is_joined(1));
    assert_eq!(pool.receive(1), Received::Disconnected);
    assert_eq!(pool.shutdown(), Ok(Shutdown::Complete));
    assert!(pool.is_joined(1));
    assert!(!pool.has_live_receiver());
}

#[test]
fn job_submitted_after_teardown_is_dropped() {
    let ran = Rc::new(RefCell::new(false));
    let mut pool: ThreadPool<Job> = ThreadPool::new(2);
    assert_eq!(pool.shutdown(), Ok(Shutdown::WaitFor(0)));
    let flag = Rc::clone(&ran);
    pool.execute(Box::new(move || *flag.borrow_mut() = true));
    assert_eq!(pool.pending(), 0);
    assert_eq!(Rc::strong_count(&ran), 1);
    assert!(matches!(pool.receive(0), Received::Disconnected));
    assert!(matches!(pool.receive(1), Received::Disconnected));
    assert_eq!(pool.shutdown(), Ok(Shutdown::Complete));
    pool.execute(Box::new(|| panic!("a job ran after teardown")));
    assert_eq!(pool.pending(), 0);
    assert!(!*ran.borrow());
}

#[test]
fn pool_never_accepts_again_after_teardown_began() {
    let mut pool: ThreadPool<u32> = ThreadPool::new(1);
    pool.execute(1);
    assert_eq!(pool.shutdown(), Ok(Shutdown::WaitFor(0)));
    assert!(!pool.is_accepting());
    pool.execute(2);
    assert!(!pool.is_accepting());
    assert_eq!(pool.receive(0), Received::Job(1));
    assert!(!pool.is_accepting());
    pool.complete(0);
    assert!(!pool.is_accepting());
    assert_eq!(pool.receive(0), Received::Disconnected);
    assert!(!pool.is_accepting());
    assert_eq!(pool.shutdown(), Ok(Shutdown::Complete));
    assert!(!pool.is_accepting());
    assert_eq!(pool.shutdown(), Ok(Shutdown::Complete));
}

#[test]
fn teardown_waits_for_a_busy_worker() {
    let mut pool: ThreadPool<u32> = ThreadPool::new(2);
    pool.execute(5);
    assert_eq!(pool.receive(1), Received::Job(5));
    assert_eq!(pool.shutdown(), Ok(Shutdown::WaitFor(0)));
    assert_eq!(pool.receive(0), Received::Disconnected);
    assert_eq!(pool.shutdown(), Ok(Shutdown::WaitFor(1)));
    assert_eq!(pool.shutdown(), Ok(Shutdown::WaitFor(1)));
    assert_eq!(pool.worker_state(1), WorkerState::Busy);
    assert!(!pool.is_joined(1));
    pool.complete(1);
    assert_eq!(pool.shutdown(), Ok(Shutdown::WaitFor(1)));
    assert_eq!(pool.receive(1), Received::Disconnected);
    assert_eq!(pool.shutdown(), Ok(Shutdown::Complete));
    assert!(!pool.worker_state(0).is_running());
    assert!(!pool.worker_state(1).is_running());
}

#[test]
fn workers_are_joined_in_construction_order() {
    let mut pool: ThreadPool<u32> = ThreadPool::new(3);
    assert_eq!(pool.shutdown(), Ok(Shutdown::WaitFor(0)));
    assert_eq!(pool.receive(2), Received::Disconnected);
    assert_eq!(pool.receive(1), Received::Disconnected);
    assert_eq!(pool.shutdown(), Ok(Shutdown::WaitFor(0)));
    assert!(!pool.is_joined(1));
    assert!(!pool.is_joined(2));
    assert_eq!(pool.receive(0), Received::Disconnected);
    assert_eq!(pool.shutdown(), Ok(Shutdown::Complete));
    assert!(pool.is_joined(0) && pool.is_joined(1) && pool.is_joined(2));
}

#[test]
fn jobs_leave_the_queue_in_submission_order() {
    let mut pool: ThreadPool<u32> = ThreadPool::new(3);
    for job in 0..9 {
        pool.execute(job);
    }
    let order = [2usize, 0, 1, 1, 0, 2, 0, 0, 1];
    for (expected, id) in order.iter().enumerate() {
        assert_eq!(pool.receive(*id), Received::Job(expected as u32));
        pool.complete(*id);
    }
    assert_eq!(pool.receive(0), Received::Empty);
}

#[test]
fn jobs_of_two_workers_may_finish_out_of_order() {
    let trace: Rc<RefCell<Vec<&'static str>>> = Rc::new(RefCell::new(Vec::new()));
    let mut pool: ThreadPool<Job> = ThreadPool::new(2);
    let log = Rc::clone(&trace);
    pool.execute(Box::new(move || log.borrow_mut().push("first")));
    let log = Rc::clone(&trace);
    pool.execute(Box::new(move || log.borrow_mut().push("second")));
    let first = match pool.receive(0) {
        Received::Job(job) => job,
        _ => panic!("no job"),
    };
    let second = match pool.receive(1) {
        Received::Job(job) => job,
        _ => panic!("no job"),
    };
    second();
    pool.complete(1);
    first();
    pool.complete(0);
    assert_eq!(*trace.borrow(), vec!["second", "first"]);
}

#[test]
fn no_two_workers_get_the_same_job() {
    let mut pool: ThreadPool<u32> = ThreadPool::new(2);
    pool.execute(42);
    assert_eq!(pool.receive(0), Received::Job(42));
    assert_eq!(pool.receive(1), Received::Empty);
    assert_eq!(pool.worker_state(1), WorkerState::Idle);
}

#[test]
fn panicked_worker_fails_teardown_and_spares_the_others() {
    let mut pool: ThreadPool<u32> = ThreadPool::new(3);
    for job in 0..4 {
        pool.execute(job);
    }
    assert_eq!(pool.receive(1), Received::Job(0));
    pool.panicked(1);
    assert_eq!(pool.worker_state(1), WorkerState::Panicked);
    assert_eq!(pool.worker_state(0), WorkerState::Idle);
    assert_eq!(pool.worker_state(2), WorkerState::Idle);
    assert!(pool.has_live_receiver());
    assert_eq!(pool.receive(0), Received::Job(1));
    pool.complete(0);
    assert_eq!(pool.receive(2), Received::Job(2));
    pool.complete(2);
    assert_eq!(pool.receive(0), Received::Job(3));
    pool.complete(0);

    assert_eq!(pool.shutdown(), Ok(Shutdown::WaitFor(0)));
    assert_eq!(pool.receive(0), Received::Disconnected);
    assert_eq!(pool.receive(2), Received::Disconnected);
    assert_eq!(pool.shutdown(), Err(PoolError::WorkerPanicked { id: 1 }));
    assert!(pool.is_joined(0));
    assert!(pool.is_joined(1));
    assert!(!pool.is_joined(2));
    assert_eq!(pool.shutdown(), Ok(Shutdown::Complete));
    assert!(pool.is_joined(2));
}

#[test]
fn receiver_is_gone_when_every_worker_panicked() {
    let mut pool: ThreadPool<u32> = ThreadPool::new(2);
    pool.execute(1);
    pool.execute(2);
    assert_eq!(pool.receive(0), Received::Job(1));
    assert_eq!(pool.receive(1), Received::Job(2));
    pool.panicked(0);
    assert!(pool.has_live_receiver());
    pool.panicked(1);
    assert!(!pool.has_live_receiver());
    assert!(pool.is_accepting());
    assert_eq!(pool.shutdown(), Err(PoolError::WorkerPanicked { id: 0 }));
    assert_eq!(pool.shutdown(), Err(PoolError::WorkerPanicked { id: 1 }));
    assert_eq!(pool.shutdown(), Ok(Shutdown::Complete));
}

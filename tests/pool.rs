use hello_web::pool::{Pool, PoolError};
use hello_web::queue::{JobQueue, Take};
use hello_web::worker::{Action, Worker, WorkerState};
use std::cell::{Cell, RefCell};
use std::rc::Rc;

type Job = Box<dyn FnOnce()>;

/// Runs the pool's workers in turn, one step each, until all have stopped.
/// Returns the number of steps taken.
fn drive(pool: &mut Pool<Job>) -> usize {
    let mut steps = 0;
    while !pool.is_finished() {
        for id in 0..pool.size() {
            if pool.worker_state(id) == WorkerState::Idle {
                steps += 1;
                match pool.next_job(id) {
                    Action::Run(job) => {
                        job();
                        steps += 1;
                        pool.job_done(id);
                    }
                    Action::Wait => panic!("a shut-down pool never makes a worker wait"),
                    Action::Exit => {}
                }
            }
        }
    }
    steps
}

fn counting_job(counter: &Rc<Cell<u32>>) -> Job {
    let c = Rc::clone(counter);
    Box::new(move || c.set(c.get() + 1))
}

#[test]
fn new_with_zero_workers_fails() {
    assert!(matches!(Pool::<Job>::new(0), Err(PoolError::ZeroSize)));
}

#[test]
fn new_creates_exactly_size_idle_workers() {
    for size in 1..=8 {
        let pool = Pool::<Job>::new(size).unwrap();
        assert_eq!(pool.size(), size);
        assert!(pool.is_open());
        assert_eq!(pool.pending_len(), 0);
        for id in 0..size {
            assert_eq!(pool.worker_state(id), WorkerState::Idle);
        }
        assert!(!pool.is_finished());
    }
}

#[test]
fn every_job_runs_exactly_once_in_order() {
    let log = Rc::new(RefCell::new(Vec::new()));
    let mut pool = Pool::<Job>::new(3).unwrap();
    for n in 0..10u32 {
        let l = Rc::clone(&log);
        assert!(pool.execute(Box::new(move || l.borrow_mut().push(n))).is_ok());
    }
    assert_eq!(pool.pending_len(), 10);
    pool.shutdown();
    drive(&mut pool);
    assert!(pool.is_finished());
    assert_eq!(pool.pending_len(), 0);
    assert_eq!(*log.borrow(), (0..10).collect::<Vec<u32>>());
}

#[test]
fn submit_after_shutdown_is_refused_and_not_run() {
    let counter = Rc::new(Cell::new(0));
    let mut pool = Pool::<Job>::new(2).unwrap();
    assert!(pool.execute(counting_job(&counter)).is_ok());
    pool.shutdown();
    let refused = pool.execute(counting_job(&counter));
    assert!(refused.is_err());
    assert_eq!(pool.pending_len(), 1);
    drive(&mut pool);
    assert_eq!(counter.get(), 1);
    // The refused job comes back unrun.
    if let Err(job) = refused {
        job();
    }
    assert_eq!(counter.get(), 2);
}

#[test]
fn shutdown_of_unused_pool_takes_one_step_per_worker() {
    let mut pool = Pool::<Job>::new(4).unwrap();
    pool.shutdown();
    assert_eq!(drive(&mut pool), 4);
    assert!(pool.is_finished());
}

#[test]
fn shutdown_twice_changes_nothing() {
    let mut pool = Pool::<Job>::new(1).unwrap();
    pool.shutdown();
    pool.shutdown();
    assert!(!pool.is_open());
    assert!(matches!(pool.next_job(0), Action::Exit));
    assert_eq!(pool.worker_state(0), WorkerState::Stopped);
    assert!(pool.is_finished());
}

#[test]
fn shutdown_waits_for_queued_jobs() {
    let counter = Rc::new(Cell::new(0));
    let mut pool = Pool::<Job>::new(1).unwrap();
    for _ in 0..3 {
        assert!(pool.execute(counting_job(&counter)).is_ok());
    }
    pool.shutdown();
    // Queued jobs are still handed out after shutdown begins.
    match pool.next_job(0) {
        Action::Run(job) => job(),
        _ => panic!("expected a job"),
    }
    assert!(!pool.is_finished());
    pool.job_done(0);
    drive(&mut pool);
    assert_eq!(counter.get(), 3);
    assert!(pool.is_finished());
}

#[test]
fn open_pool_makes_idle_worker_wait() {
    let mut pool = Pool::<Job>::new(1).unwrap();
    assert!(matches!(pool.next_job(0), Action::Wait));
    assert_eq!(pool.worker_state(0), WorkerState::Idle);
}

#[test]
fn two_workers_run_two_jobs_at_once() {
    let counter = Rc::new(Cell::new(0));
    let mut pool = Pool::<Job>::new(2).unwrap();
    assert!(pool.execute(counting_job(&counter)).is_ok());
    assert!(pool.execute(counting_job(&counter)).is_ok());
    let a = pool.next_job(0);
    let b = pool.next_job(1);
    assert_eq!(pool.worker_state(0), WorkerState::Busy);
    assert_eq!(pool.worker_state(1), WorkerState::Busy);
    for action in [a, b] {
        match action {
            Action::Run(job) => job(),
            _ => panic!("expected a job"),
        }
    }
    assert_eq!(counter.get(), 2);
}

#[test]
fn four_jobs_on_two_workers_count_to_four() {
    let counter = Rc::new(Cell::new(0));
    let mut pool = Pool::<Job>::new(2).unwrap();
    for _ in 0..4 {
        assert!(pool.execute(counting_job(&counter)).is_ok());
    }
    pool.shutdown();
    drive(&mut pool);
    assert_eq!(counter.get(), 4);
}

#[test]
fn one_worker_runs_jobs_one_after_another() {
    let log = Rc::new(RefCell::new(Vec::new()));
    let mut pool = Pool::<Job>::new(1).unwrap();
    let (la, lb) = (Rc::clone(&log), Rc::clone(&log));
    assert!(pool.execute(Box::new(move || la.borrow_mut().push("a"))).is_ok());
    assert!(pool.execute(Box::new(move || lb.borrow_mut().push("b"))).is_ok());
    match pool.next_job(0) {
        Action::Run(job) => job(),
        _ => panic!("expected job a"),
    }
    // While busy with a, the only worker takes nothing else: b stays queued.
    assert_eq!(pool.worker_state(0), WorkerState::Busy);
    assert_eq!(pool.pending_len(), 1);
    pool.job_done(0);
    match pool.next_job(0) {
        Action::Run(job) => job(),
        _ => panic!("expected job b"),
    }
    assert_eq!(*log.borrow(), vec!["a", "b"]);
}

#[test]
fn size_three_pool_shut_down_at_once() {
    let mut pool = Pool::<Job>::new(3).unwrap();
    pool.shutdown();
    for id in 0..3 {
        assert!(matches!(pool.next_job(id), Action::Exit));
    }
    assert!(pool.is_finished());
}

#[test]
fn queue_is_first_in_first_out() {
    let mut q = JobQueue::<u32>::new();
    for n in [5, 6, 7] {
        assert_eq!(q.submit(n), Ok(()));
    }
    assert_eq!(q.len(), 3);
    for n in [5, 6, 7] {
        assert!(matches!(q.take(), Take::Job(m) if m == n));
    }
    assert!(matches!(q.take(), Take::Empty));
}

#[test]
fn closed_queue_drains_then_signals_closed() {
    let mut q = JobQueue::<u32>::new();
    assert_eq!(q.submit(1), Ok(()));
    q.close();
    q.close();
    assert!(!q.is_open());
    assert_eq!(q.submit(2), Err(2));
    assert!(matches!(q.take(), Take::Job(1)));
    assert!(matches!(q.take(), Take::Closed));
    assert!(matches!(q.take(), Take::Closed));
}

#[test]
fn worker_follows_what_the_queue_gives() {
    let mut w = Worker::new(4);
    assert_eq!(w.id(), 4);
    assert_eq!(w.state(), WorkerState::Idle);
    assert!(matches!(w.on_take(Take::<u8>::Empty), Action::Wait));
    assert_eq!(w.state(), WorkerState::Idle);
    assert!(matches!(w.on_take(Take::Job(9u8)), Action::Run(9)));
    assert_eq!(w.state(), WorkerState::Busy);
    w.on_done();
    assert_eq!(w.state(), WorkerState::Idle);
    assert!(matches!(w.on_take(Take::<u8>::Closed), Action::Exit));
    assert_eq!(w.state(), WorkerState::Stopped);
    assert_eq!(w.id(), 4);
}

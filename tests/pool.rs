use rswebserver::pool::{Action, Phase};
use rswebserver::queue::{Fetch, JobQueue};
use rswebserver::{ThreadPool, ZeroSizedPoolErr};
use std::cell::RefCell;
use std::rc::Rc;
use std::sync::atomic::{AtomicUsize, Ordering};
use std::sync::Arc;

type Job = Box<dyn FnOnce()>;

fn built<T>(n: usize) -> ThreadPool<T> {
    match ThreadPool::build(n) {
        Ok(p) => p,
        Err(_) => panic!("a pool of {} workers should build", n),
    }
}

#[test]
fn build_zero_is_refused() {
    let r = ThreadPool::<u32>::build(0);
    assert!(matches!(r, Err(ZeroSizedPoolErr)));
}

#[test]
fn zero_sized_error_message() {
    assert_eq!(ZeroSizedPoolErr.message(), "size must be higher than 0");
}

#[test]
fn build_makes_exactly_n_idle_workers() {
    for n in 1..=16usize {
        let p = built::<u32>(n);
        assert_eq!(p.size(), n);
        for id in 0..n {
            assert_eq!(p.phase(id), Phase::Idle);
        }
        assert_eq!(p.pending(), 0);
        assert!(!p.is_shut_down());
    }
}

#[test]
fn queue_is_first_in_first_out() {
    let mut q = JobQueue::new();
    for i in 0..5u32 {
        assert!(q.enqueue(i).is_ok());
    }
    assert_eq!(q.len(), 5);
    for i in 0..5u32 {
        assert!(matches!(q.dequeue(), Fetch::Job(j) if j == i));
    }
    assert!(matches!(q.dequeue(), Fetch::Empty));
    assert!(!q.is_closed());
}

#[test]
fn closed_queue_refuses_then_drains_then_disconnects() {
    let mut q = JobQueue::new();
    assert!(q.enqueue(1u32).is_ok());
    assert!(q.enqueue(2u32).is_ok());
    assert!(q.close());
    assert!(!q.close());
    match q.enqueue(3u32) {
        Err(e) => assert_eq!(e.job, 3),
        Ok(()) => panic!("a closed queue took a job"),
    }
    assert!(matches!(q.dequeue(), Fetch::Job(1)));
    assert!(matches!(q.dequeue(), Fetch::Job(2)));
    assert!(matches!(q.dequeue(), Fetch::Disconnected));
    assert!(matches!(q.dequeue(), Fetch::Disconnected));
}

#[test]
fn single_producer_jobs_each_delivered_once_in_order() {
    let mut p = built::<u32>(3);
    for i in 0..50u32 {
        assert!(p.execute(i).is_ok());
    }
    let mut seen: Vec<u32> = Vec::new();
    let mut id = 0usize;
    loop {
        match p.fetch(id) {
            Action::Run(j) => {
                seen.push(j);
                p.finish(id);
            }
            Action::Wait => break,
            Action::Exit => panic!("open pool told a worker to stop"),
        }
        id = (id + 1) % 3;
    }
    assert_eq!(seen, (0..50u32).collect::<Vec<u32>>());
    assert_eq!(p.pending(), 0);
}

#[test]
fn busy_worker_holds_one_job_while_others_take_the_next() {
    let mut p = built::<char>(2);
    assert!(p.execute('a').is_ok());
    assert!(p.execute('b').is_ok());
    assert!(matches!(p.fetch(0), Action::Run('a')));
    assert_eq!(p.phase(0), Phase::Busy);
    assert!(matches!(p.fetch(1), Action::Run('b')));
    assert_eq!(p.phase(1), Phase::Busy);
    // b completes first: completion order is free across workers
    p.finish(1);
    assert_eq!(p.phase(0), Phase::Busy);
    assert_eq!(p.phase(1), Phase::Idle);
    p.finish(0);
    assert_eq!(p.phase(0), Phase::Idle);
}

#[test]
fn shutdown_joins_every_worker_in_id_order() {
    let mut p = built::<u32>(4);
    assert!(p.shutdown());
    assert!(!p.shutdown());
    for id in 0..4usize {
        assert!(matches!(p.fetch(id), Action::Exit));
        assert_eq!(p.phase(id), Phase::Stopped);
    }
    let mut joined: Vec<usize> = Vec::new();
    while let Some(id) = p.next_join() {
        joined.push(id);
    }
    assert_eq!(joined, vec![0, 1, 2, 3]);
    assert!(p.is_shut_down());
    assert_eq!(p.next_join(), None);
}

#[test]
fn execute_after_shutdown_is_closed() {
    let mut p = built::<u32>(2);
    assert!(p.execute(1).is_ok());
    p.shutdown();
    match p.execute(2) {
        Err(e) => assert_eq!(e.job, 2),
        Ok(()) => panic!("a shut pool took a job"),
    }
    assert!(matches!(p.fetch(0), Action::Run(1)));
    assert!(matches!(p.fetch(1), Action::Exit));
}

#[test]
fn hundred_counter_jobs_on_four_workers() {
    let counter = Arc::new(AtomicUsize::new(0));
    let runs: Rc<RefCell<Vec<usize>>> = Rc::new(RefCell::new(vec![0; 100]));
    let mut p = built::<Job>(4);
    for k in 0..100usize {
        let c = Arc::clone(&counter);
        let r = Rc::clone(&runs);
        let job: Job = Box::new(move || {
            c.fetch_add(1, Ordering::SeqCst);
            r.borrow_mut()[k] += 1;
        });
        assert!(p.execute(job).is_ok());
    }
    p.shutdown();
    let mut stopped = [false; 4];
    let mut id = 0usize;
    while stopped.iter().any(|s| !s) {
        if !stopped[id] {
            match p.fetch(id) {
                Action::Run(job) => {
                    job();
                    p.finish(id);
                }
                Action::Wait => panic!("a shut pool told a worker to wait"),
                Action::Exit => stopped[id] = true,
            }
        }
        id = (id + 1) % 4;
    }
    while p.next_join().is_some() {}
    assert!(p.is_shut_down());
    assert_eq!(counter.load(Ordering::SeqCst), 100);
    assert!(runs.borrow().iter().all(|&n| n == 1));
}

#[test]
fn single_worker_runs_second_job_only_after_first() {
    let log: Rc<RefCell<Vec<&'static str>>> = Rc::new(RefCell::new(Vec::new()));
    let counter = Rc::new(RefCell::new(0u32));
    let mut p = built::<Job>(1);
    let l1 = Rc::clone(&log);
    let slow: Job = Box::new(move || {
        l1.borrow_mut().push("slow start");
        l1.borrow_mut().push("slow end");
    });
    let l2 = Rc::clone(&log);
    let c2 = Rc::clone(&counter);
    let count: Job = Box::new(move || {
        l2.borrow_mut().push("count");
        *c2.borrow_mut() += 1;
    });
    assert!(p.execute(slow).is_ok());
    assert!(p.execute(count).is_ok());
    let first = match p.fetch(0) {
        Action::Run(job) => job,
        _ => panic!("the first job was not handed out"),
    };
    // while the only worker is busy the second job stays queued
    assert_eq!(p.phase(0), Phase::Busy);
    assert_eq!(p.pending(), 1);
    assert_eq!(*counter.borrow(), 0);
    first();
    p.finish(0);
    match p.fetch(0) {
        Action::Run(job) => job(),
        _ => panic!("the second job was not handed out"),
    }
    p.finish(0);
    assert_eq!(*counter.borrow(), 1);
    assert_eq!(*log.borrow(), vec!["slow start", "slow end", "count"]);
}

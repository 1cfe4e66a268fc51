use std::cell::Cell;
use std::rc::Rc;

use thread_pool::{plan_workers, Dispatch, JobQueue, PoolError, WorkerStep};

type Job = Box<dyn FnOnce() -> bool>;

fn counting_job(counter: &Rc<Cell<u32>>) -> Job {
    let c = Rc::clone(counter);
    Box::new(move || {
        c.set(c.get() + 1);
        true
    })
}

fn failing_job() -> Job {
    Box::new(|| false)
}

#[test]
fn plan_numbers_workers_from_zero() {
    assert_eq!(plan_workers(4), Ok(vec![0, 1, 2, 3]));
    assert_eq!(plan_workers(1), Ok(vec![0]));
    let ids = plan_workers(37).unwrap();
    assert_eq!(ids.len(), 37);
    assert!(ids.iter().enumerate().all(|(i, id)| i == *id));
}

#[test]
fn zero_workers_is_refused() {
    assert_eq!(plan_workers(0), Err(PoolError::ZeroSize));
}

#[test]
fn four_workers_run_one_hundred_increments() {
    let size = 4;
    let ids = plan_workers(size).unwrap();
    let counter = Rc::new(Cell::new(0u32));
    let mut queue: JobQueue<Job> = JobQueue::new(size);
    for _ in 0..100 {
        assert!(queue.submit(counting_job(&counter)).is_ok());
    }
    let mut runs = vec![0u32; size];
    let mut idle = 0;
    let mut turn = 0;
    while idle < size {
        let worker = ids[turn % size];
        match queue.next_step() {
            WorkerStep::Run(d) => {
                assert!((d.job)());
                runs[worker] += 1;
                idle = 0;
            }
            WorkerStep::Wait => idle += 1,
            WorkerStep::Exit => panic!("an open queue never sends a worker away"),
        }
        turn += 1;
    }
    assert_eq!(counter.get(), 100);
    assert_eq!(runs.iter().sum::<u32>(), 100);
    assert_eq!(queue.pending_len(), 0);
}

#[test]
fn single_worker_runs_jobs_one_after_another() {
    let flag = Rc::new(Cell::new(0u32));
    let mut queue: JobQueue<Job> = JobQueue::new(1);
    let released = Rc::new(Cell::new(false));
    let r = Rc::clone(&released);
    let first: Job = Box::new(move || r.get());
    assert_eq!(queue.submit(first).ok(), Some(0));
    assert_eq!(queue.submit(counting_job(&flag)).ok(), Some(1));

    // The only worker holds the first job; the second stays queued.
    let first = match queue.next_step() {
        WorkerStep::Run(d) => d,
        _ => panic!("the first job is pending"),
    };
    assert_eq!(first.ticket, 0);
    assert_eq!(queue.pending_len(), 1);
    assert_eq!(flag.get(), 0);

    released.set(true);
    assert!((first.job)());
    match queue.next_step() {
        WorkerStep::Run(d) => {
            assert_eq!(d.ticket, 1);
            assert!((d.job)());
        }
        _ => panic!("the second job is pending"),
    }
    assert_eq!(flag.get(), 1);
    assert!(matches!(queue.next_step(), WorkerStep::Wait));
}

#[test]
fn failing_job_leaves_other_workers_running() {
    let counter = Rc::new(Cell::new(0u32));
    let mut queue: JobQueue<Job> = JobQueue::new(2);
    assert!(queue.submit(failing_job()).is_ok());
    for _ in 0..3 {
        assert!(queue.submit(counting_job(&counter)).is_ok());
    }
    // Worker 0 takes the failing job and its thread ends.
    match queue.next_step() {
        WorkerStep::Run(d) => assert!(!(d.job)()),
        _ => panic!("the failing job is pending"),
    }
    queue.release_receiver();
    assert_eq!(queue.receivers(), 1);
    // Worker 1 carries on with the rest, and new work is still accepted.
    assert!(queue.submit(counting_job(&counter)).is_ok());
    while let WorkerStep::Run(d) = queue.next_step() {
        assert!((d.job)());
    }
    assert_eq!(counter.get(), 4);
}

#[test]
fn tickets_follow_submission_order() {
    let mut queue: JobQueue<&str> = JobQueue::new(2);
    assert_eq!(queue.submit("a").ok(), Some(0));
    assert_eq!(queue.submit("b").ok(), Some(1));
    assert_eq!(queue.tickets_issued(), 2);
    let first = queue.take().unwrap();
    let second = queue.take().unwrap();
    assert_eq!((first.ticket, first.job), (0, "a"));
    assert_eq!((second.ticket, second.job), (1, "b"));
    assert!(queue.take().is_none());
}

#[test]
fn every_job_leaves_once_in_order() {
    let mut queue: JobQueue<u32> = JobQueue::new(3);
    let mut out: Vec<u32> = Vec::new();
    for j in 0..50u32 {
        assert!(queue.submit(j).is_ok());
        if j % 3 == 0 {
            let Dispatch { ticket, job } = queue.take().unwrap();
            assert_eq!(ticket as usize, out.len());
            out.push(job);
        }
    }
    while let Some(d) = queue.take() {
        assert_eq!(d.ticket as usize, out.len());
        out.push(d.job);
    }
    assert_eq!(out, (0..50).collect::<Vec<u32>>());
    assert_eq!(queue.tickets_issued(), 50);
}

#[test]
fn interleaved_callers_lose_no_job() {
    let mut queue: JobQueue<(u32, u32)> = JobQueue::new(2);
    for k in 0..20u32 {
        assert!(queue.submit((k % 3, k)).is_ok());
    }
    let mut out: Vec<(u32, u32)> = Vec::new();
    while let Some(d) = queue.take() {
        out.push(d.job);
    }
    for caller in 0..3u32 {
        let mine: Vec<u32> = out.iter().filter(|j| j.0 == caller).map(|j| j.1).collect();
        let sent: Vec<u32> = (0..20).filter(|k| k % 3 == caller).collect();
        assert_eq!(mine, sent);
    }
    assert_eq!(out.len(), 20);
}

#[test]
fn closed_queue_refuses_work_and_drains() {
    let mut queue: JobQueue<u32> = JobQueue::new(1);
    assert!(queue.submit(7).is_ok());
    queue.close();
    assert!(!queue.is_open());
    assert_eq!(queue.submit(8), Err(8));
    match queue.next_step() {
        WorkerStep::Run(d) => assert_eq!((d.ticket, d.job), (0, 7)),
        _ => panic!("the pending job is still handed out"),
    }
    assert!(matches!(queue.next_step(), WorkerStep::Exit));
}

#[test]
fn queue_without_workers_refuses_work() {
    let mut queue: JobQueue<u32> = JobQueue::new(2);
    queue.release_receiver();
    assert!(queue.submit(1).is_ok());
    queue.release_receiver();
    assert_eq!(queue.receivers(), 0);
    assert_eq!(queue.submit(2), Err(2));
    assert_eq!(queue.tickets_issued(), 1);
}

#[test]
fn idle_worker_waits_on_open_queue() {
    let mut queue: JobQueue<u32> = JobQueue::new(1);
    assert!(matches!(queue.next_step(), WorkerStep::Wait));
    assert!(queue.take().is_none());
    assert_eq!(queue.pending_len(), 0);
}

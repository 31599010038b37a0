use worker_pool::error::PoolError;
use worker_pool::pool::WorkerPool;
use worker_pool::queue::Dequeued;
use worker_pool::worker::{JobOutcome, WorkerState};

fn job_of(d: Dequeued<u32>) -> u32 {
    match d {
        Dequeued::Job(j) => j,
        other => panic!("expected a job, got {:?}", other),
    }
}

#[test]
fn new_with_zero_workers_is_invalid_pool_size() {
    let r = WorkerPool::<u32>::new(0);
    assert!(matches!(r, Err(PoolError::InvalidPoolSize)));
}

#[test]
fn new_creates_exactly_size_idle_workers() {
    for n in [1usize, 2, 4, 16] {
        let p = WorkerPool::<u32>::new(n).unwrap();
        assert_eq!(p.size(), n);
        for w in 0..n {
            assert_eq!(p.worker_state(w), WorkerState::Idle);
        }
        assert_eq!(p.pending_len(), 0);
        assert!(!p.is_shut_down());
        assert!(!p.is_finished());
    }
}

#[test]
fn worker_count_never_changes() {
    let mut p = WorkerPool::<u32>::new(3).unwrap();
    p.submit(1).unwrap();
    assert_eq!(p.size(), 3);
    let _ = p.claim(2);
    assert_eq!(p.size(), 3);
    p.complete(2, JobOutcome::Completed);
    p.shutdown();
    assert_eq!(p.size(), 3);
}

#[test]
fn two_workers_run_four_jobs_in_two_batches() {
    let mut p = WorkerPool::<u32>::new(2).unwrap();
    for id in 1..=4u32 {
        assert_eq!(p.submit(id), Ok(()));
    }
    let mut log: Vec<u32> = Vec::new();
    let mut batches = 0;
    while p.pending_len() > 0 {
        let mut running = Vec::new();
        for w in 0..2 {
            if let Dequeued::Job(j) = p.claim(w) {
                running.push(w);
                log.push(j);
            }
        }
        assert_eq!(running.len(), 2);
        for w in running {
            p.complete(w, JobOutcome::Completed);
        }
        batches += 1;
    }
    assert_eq!(batches, 2);
    let mut sorted = log.clone();
    sorted.sort();
    assert_eq!(sorted, vec![1, 2, 3, 4]);
}

#[test]
fn third_job_waits_while_both_workers_are_busy() {
    let mut p = WorkerPool::<u32>::new(2).unwrap();
    for id in 1..=3u32 {
        p.submit(id).unwrap();
    }
    assert_eq!(job_of(p.claim(0)), 1);
    assert_eq!(job_of(p.claim(1)), 2);
    assert_eq!(p.worker_state(0), WorkerState::Running);
    assert_eq!(p.worker_state(1), WorkerState::Running);
    assert_eq!(p.pending_len(), 1);
    p.complete(1, JobOutcome::Completed);
    assert_eq!(job_of(p.claim(1)), 3);
}

#[test]
fn every_job_runs_exactly_once() {
    for (n, m) in [(1usize, 5u32), (3, 2), (4, 4), (2, 9)] {
        let mut p = WorkerPool::<u32>::new(n).unwrap();
        for id in 0..m {
            p.submit(id).unwrap();
        }
        p.shutdown();
        let mut seen = vec![0u32; m as usize];
        let mut w = 0usize;
        while !p.is_finished() {
            match p.worker_state(w) {
                WorkerState::Idle => match p.claim(w) {
                    Dequeued::Job(j) => seen[j as usize] += 1,
                    Dequeued::Empty => panic!("a worker was told to wait after shutdown"),
                    Dequeued::Closed => {}
                },
                WorkerState::Running => p.complete(w, JobOutcome::Completed),
                WorkerState::Stopped => {}
            }
            w = (w + 1) % n;
        }
        assert!(seen.iter().all(|&c| c == 1), "n={} m={} seen={:?}", n, m, seen);
        assert_eq!(p.pending_len(), 0);
    }
}

#[test]
fn one_worker_runs_jobs_in_submission_order() {
    let mut p = WorkerPool::<u32>::new(1).unwrap();
    for id in [7u32, 3, 9, 1] {
        p.submit(id).unwrap();
    }
    let mut order = Vec::new();
    for _ in 0..4 {
        order.push(job_of(p.claim(0)));
        p.complete(0, JobOutcome::Completed);
    }
    assert_eq!(order, vec![7, 3, 9, 1]);
}

#[test]
fn delivery_follows_submission_order_across_workers() {
    let mut p = WorkerPool::<u32>::new(3).unwrap();
    for id in 10..16u32 {
        p.submit(id).unwrap();
    }
    assert_eq!(job_of(p.claim(2)), 10);
    assert_eq!(job_of(p.claim(0)), 11);
    p.complete(2, JobOutcome::Completed);
    assert_eq!(job_of(p.claim(2)), 12);
    assert_eq!(job_of(p.claim(1)), 13);
}

#[test]
fn submit_accepts_regardless_of_depth_or_busy_workers() {
    let mut p = WorkerPool::<u32>::new(1).unwrap();
    p.submit(0).unwrap();
    let _ = p.claim(0);
    for id in 1..10_000u32 {
        assert_eq!(p.submit(id), Ok(()));
    }
    assert_eq!(p.pending_len(), 9_999);
}

#[test]
fn idle_worker_waits_on_open_empty_queue() {
    let mut p = WorkerPool::<u32>::new(2).unwrap();
    assert!(matches!(p.claim(0), Dequeued::Empty));
    assert_eq!(p.worker_state(0), WorkerState::Idle);
}

#[test]
fn submit_after_shutdown_is_queue_closed_and_never_runs() {
    let mut p = WorkerPool::<u32>::new(2).unwrap();
    p.shutdown();
    assert!(p.is_shut_down());
    assert_eq!(p.submit(42), Err(PoolError::QueueClosed));
    assert_eq!(p.pending_len(), 0);
    assert!(matches!(p.claim(0), Dequeued::Closed));
    assert!(matches!(p.claim(1), Dequeued::Closed));
    assert!(p.is_finished());
}

#[test]
fn teardown_drains_queued_jobs_before_stopping() {
    let mut p = WorkerPool::<u32>::new(2).unwrap();
    p.submit(1).unwrap();
    p.submit(2).unwrap();
    assert_eq!(job_of(p.claim(0)), 1);
    p.shutdown();
    assert_eq!(p.submit(3), Err(PoolError::QueueClosed));
    assert_eq!(job_of(p.claim(1)), 2);
    assert!(!p.is_finished());
    p.complete(0, JobOutcome::Completed);
    assert!(matches!(p.claim(0), Dequeued::Closed));
    assert_eq!(p.worker_state(0), WorkerState::Stopped);
    assert!(!p.is_finished());
    p.complete(1, JobOutcome::Completed);
    assert!(matches!(p.claim(1), Dequeued::Closed));
    assert!(p.is_finished());
}

#[test]
fn faulted_job_leaves_worker_ready_for_the_next() {
    let mut p = WorkerPool::<u32>::new(1).unwrap();
    p.submit(1).unwrap();
    p.submit(2).unwrap();
    assert_eq!(job_of(p.claim(0)), 1);
    p.complete(0, JobOutcome::Faulted);
    assert_eq!(p.worker_state(0), WorkerState::Idle);
    assert_eq!(job_of(p.claim(0)), 2);
    assert_eq!(p.worker_state(0), WorkerState::Running);
}

use hello::pool::Completion;
use hello::pool::PoolError;
use hello::pool::ThreadPool;
use hello::pool::WorkerState;

/// How many tasks each worker of `pool` has completed.
fn per_worker_counts(pool: &ThreadPool) -> Vec<usize> {
    let mut counts = vec![0usize; pool.workers.len()];
    for c in &pool.done {
        counts[c.worker] += 1;
    }
    counts
}

/// Every id below `n` has exactly one completion record.
fn assert_each_done_once(pool: &ThreadPool, n: usize) {
    for id in 0..n {
        let records = pool.done.iter().filter(|c| c.task == id).count();
        assert_eq!(records, 1, "task {} completed {} times", id, records);
    }
    assert_eq!(pool.done.len(), n);
}

#[test]
fn construct_zero_fails() {
    assert!(matches!(
        ThreadPool::construct(0),
        Err(PoolError::ZeroSize)
    ));
}

#[test]
fn construct_yields_exactly_size_live_workers() {
    for size in 1..6 {
        let pool = ThreadPool::construct(size).unwrap();
        assert_eq!(pool.workers.len(), size);
        assert_eq!(pool.live_workers(), size);
        assert!(pool.workers.iter().all(|w| *w == WorkerState::Idle));
        assert!(pool.is_open);
        assert_eq!(pool.submitted, 0);
        assert!(pool.pending.is_empty());
        assert!(pool.done.is_empty());
    }
}

#[test]
fn new_pool_starts_idle() {
    let pool = ThreadPool::new(4);
    assert_eq!(pool.live_workers(), 4);
    assert_eq!(pool.workers, vec![WorkerState::Idle; 4]);
}

#[test]
fn execute_assigns_sequential_ids() {
    let mut pool = ThreadPool::new(2);
    assert_eq!(pool.execute(), Ok(0));
    assert_eq!(pool.execute(), Ok(1));
    assert_eq!(pool.execute(), Ok(2));
    assert_eq!(pool.pending, vec![0, 1, 2]);
    assert_eq!(pool.submitted, 3);
}

#[test]
fn execute_after_close_fails() {
    let mut pool = ThreadPool::new(1);
    assert_eq!(pool.execute(), Ok(0));
    pool.close();
    assert_eq!(pool.execute(), Err(PoolError::Closed));
    // The rejected submission changed nothing.
    assert_eq!(pool.pending, vec![0]);
    assert_eq!(pool.submitted, 1);
}

#[test]
fn dispatch_is_fifo() {
    let mut pool = ThreadPool::new(1);
    for _ in 0..3 {
        pool.execute().unwrap();
    }
    assert_eq!(pool.dispatch(0), 0);
    assert_eq!(pool.workers[0], WorkerState::Running(0));
    pool.complete(0, false);
    assert_eq!(pool.dispatch(0), 1);
    pool.complete(0, false);
    assert_eq!(pool.dispatch(0), 2);
    pool.complete(0, false);
    assert_eq!(
        pool.done,
        vec![
            Completion { task: 0, worker: 0, faulted: false },
            Completion { task: 1, worker: 0, faulted: false },
            Completion { task: 2, worker: 0, faulted: false },
        ]
    );
}

#[test]
fn excess_tasks_queue_up_and_all_run() {
    let mut pool = ThreadPool::new(2);
    for _ in 0..5 {
        pool.execute().unwrap();
    }
    // Both workers take one task; the other three wait in line.
    assert_eq!(pool.dispatch(0), 0);
    assert_eq!(pool.dispatch(1), 1);
    assert_eq!(pool.pending, vec![2, 3, 4]);
    // As workers free up, the backlog drains in order; nothing is dropped.
    let mut next_worker = 0;
    while !pool.pending.is_empty() {
        pool.complete(next_worker, false);
        pool.dispatch(next_worker);
        next_worker = 1 - next_worker;
    }
    pool.complete(0, false);
    pool.complete(1, false);
    assert_each_done_once(&pool, 5);
}

#[test]
fn shutdown_finishes_every_submitted_task() {
    let mut pool = ThreadPool::new(2);
    for _ in 0..4 {
        pool.execute().unwrap();
    }
    // One task is mid-flight when shutdown begins.
    pool.dispatch(0);
    pool.shutdown();
    assert!(!pool.is_open);
    assert!(pool.pending.is_empty());
    assert!(pool.workers.iter().all(|w| *w == WorkerState::Stopped));
    assert_eq!(pool.live_workers(), 0);
    assert_each_done_once(&pool, 4);
}

#[test]
fn shutdown_of_idle_pool_joins_all_workers() {
    let mut pool = ThreadPool::new(3);
    pool.shutdown();
    assert!(pool.workers.iter().all(|w| *w == WorkerState::Stopped));
    assert!(pool.done.is_empty());
}

#[test]
fn faulting_task_does_not_kill_its_worker() {
    let mut pool = ThreadPool::new(1);
    pool.execute().unwrap();
    pool.execute().unwrap();
    pool.dispatch(0);
    // The first task faults; the worker survives and stays on duty.
    pool.complete(0, true);
    assert_eq!(pool.workers[0], WorkerState::Idle);
    assert_eq!(pool.live_workers(), 1);
    // The same worker still picks up and finishes the next task.
    assert_eq!(pool.dispatch(0), 1);
    pool.complete(0, false);
    assert_eq!(
        pool.done,
        vec![
            Completion { task: 0, worker: 0, faulted: true },
            Completion { task: 1, worker: 0, faulted: false },
        ]
    );
}

#[test]
fn two_workers_share_five_tasks() {
    let mut pool = ThreadPool::new(2);
    for _ in 0..5 {
        pool.execute().unwrap();
    }
    // Both workers hold a task at once: dispatch is parallel, not serial.
    pool.dispatch(0);
    pool.dispatch(1);
    assert!(matches!(pool.workers[0], WorkerState::Running(_)));
    assert!(matches!(pool.workers[1], WorkerState::Running(_)));
    let mut next_worker = 0;
    while !pool.pending.is_empty() {
        pool.complete(next_worker, false);
        pool.dispatch(next_worker);
        next_worker = 1 - next_worker;
    }
    pool.complete(0, false);
    pool.complete(1, false);
    assert_each_done_once(&pool, 5);
    let counts = per_worker_counts(&pool);
    assert!(counts[0] >= 1 && counts[0] <= 5);
    assert!(counts[1] >= 1 && counts[1] <= 5);
    assert_eq!(counts[0] + counts[1], 5);
}

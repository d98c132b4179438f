use creator_archive::dispatch::DownloadTask;
use creator_archive::pool::{WorkerPool, DEFAULT_WORKERS};
use creator_archive::transfer::TaskResult;

fn task(n: usize) -> DownloadTask {
    DownloadTask {
        url: format!("https://coomer.party/data/{}?f={}.bin", n, n),
        directory: "attachments".to_string(),
        filename: format!("{}.bin", n),
    }
}

/// Runs `count` tasks through a pool of `size` workers. Workers take tasks
/// whenever they can; the oldest running task ends first. Gives the largest
/// number of tasks that ran at once and the order in which tasks were taken.
fn run(size: usize, count: usize) -> (usize, Vec<String>, WorkerPool) {
    let mut pool = WorkerPool::new(size);
    for n in 0..count {
        assert!(pool.submit(task(n)));
    }
    pool.close();
    let mut most = 0;
    let mut order = Vec::new();
    let mut round = 0;
    loop {
        while let Some(t) = pool.take() {
            order.push(t.filename);
            assert!(pool.running() <= size);
            most = most.max(pool.running());
        }
        if pool.is_finished() || pool.running() == 0 {
            break;
        }
        let result = match round % 3 {
            0 => TaskResult::Succeeded,
            1 => TaskResult::Skipped,
            _ => TaskResult::Failed("broken".to_string()),
        };
        assert!(pool.complete(&result));
        round += 1;
    }
    (most, order, pool)
}

#[test]
fn the_default_pool_has_eight_workers() {
    assert_eq!(DEFAULT_WORKERS, 8);
}

#[test]
fn never_more_tasks_run_than_the_pool_has_workers() {
    let size = DEFAULT_WORKERS;
    for count in [0, 1, size - 1, size, size + 1, 100] {
        let (most, order, pool) = run(size, count);
        assert_eq!(most, count.min(size), "{} tasks", count);
        assert_eq!(order, (0..count).map(|n| format!("{}.bin", n)).collect::<Vec<_>>());
        assert!(pool.is_finished());
        assert_eq!(pool.dispatched(), count);
        assert_eq!(pool.processed(), count);
        assert_eq!(pool.running(), 0);
    }
}

#[test]
fn a_pool_of_one_runs_one_task_at_a_time() {
    let (most, _, pool) = run(1, 5);
    assert_eq!(most, 1);
    assert_eq!((pool.succeeded(), pool.skipped(), pool.failed()), (2, 2, 1));
}

#[test]
fn a_pool_without_workers_runs_nothing() {
    let (most, order, pool) = run(0, 3);
    assert_eq!(most, 0);
    assert!(order.is_empty());
    assert!(!pool.is_finished());
    assert_eq!(pool.processed(), 0);
    assert_eq!(pool.size(), 0);
}

#[test]
fn results_are_counted_by_kind() {
    let (_, _, pool) = run(3, 10);
    assert_eq!(pool.succeeded(), 4);
    assert_eq!(pool.skipped(), 3);
    assert_eq!(pool.failed(), 3);
    assert_eq!(pool.processed(), pool.dispatched());
}

#[test]
fn a_closed_queue_takes_no_further_task() {
    let mut pool = WorkerPool::new(2);
    assert!(pool.submit(task(0)));
    pool.close();
    assert!(!pool.submit(task(1)));
    assert_eq!(pool.dispatched(), 1);
}

#[test]
fn the_run_is_over_only_when_closed_and_drained() {
    let mut pool = WorkerPool::new(2);
    assert!(!pool.is_finished());
    assert!(pool.submit(task(0)));
    assert_eq!(pool.take(), Some(task(0)));
    assert_eq!(pool.take(), None);
    assert!(pool.complete(&TaskResult::Succeeded));
    assert!(!pool.is_finished());
    assert!(pool.submit(task(1)));
    pool.close();
    assert!(!pool.is_finished());
    assert_eq!(pool.take(), Some(task(1)));
    assert!(!pool.is_finished());
    assert!(pool.complete(&TaskResult::Skipped));
    assert!(pool.is_finished());
    assert_eq!((pool.succeeded(), pool.skipped(), pool.failed()), (1, 1, 0));
}

#[test]
fn a_report_without_a_running_task_counts_nothing() {
    let mut pool = WorkerPool::new(2);
    assert!(!pool.complete(&TaskResult::Failed("nothing ran".to_string())));
    assert_eq!(pool.processed(), 0);
    assert_eq!(pool.running(), 0);
}

#[test]
fn tasks_are_handed_out_while_more_are_queued() {
    let mut pool = WorkerPool::new(2);
    assert!(pool.submit(task(0)));
    assert_eq!(pool.take(), Some(task(0)));
    assert!(pool.submit(task(1)));
    assert!(pool.submit(task(2)));
    assert_eq!(pool.take(), Some(task(1)));
    assert_eq!(pool.take(), None);
    assert_eq!(pool.running(), 2);
    assert!(pool.complete(&TaskResult::Succeeded));
    assert_eq!(pool.take(), Some(task(2)));
    assert_eq!(pool.take(), None);
}

use tiny_http::util::task_pool::{SpawnAction, TaskPool, WorkerAction, IDLE_TIMEOUT_MS};

#[test]
fn both_limits_are_at_least_one() {
    let pool: TaskPool<u8> = TaskPool::new(0, 0, 0);
    assert_eq!(pool.active_threads(), 1);
    let pool: TaskPool<u8> = TaskPool::new(0, 8, 0);
    assert_eq!(pool.active_threads(), 1);
}

#[test]
fn the_minimum_is_at_most_the_maximum() {
    let pool: TaskPool<u8> = TaskPool::new(9, 4, 0);
    assert_eq!(pool.active_threads(), 4);
    let pool: TaskPool<u8> = TaskPool::new(3, 4, 0);
    assert_eq!(pool.active_threads(), 3);
}

#[test]
fn threads_are_started_up_to_the_maximum_then_tasks_are_queued_then_rejected() {
    let mut pool: TaskPool<u8> = TaskPool::new(1, 3, 2);
    assert!(matches!(pool.spawn(1), SpawnAction::StartThread(1)));
    assert!(matches!(pool.spawn(2), SpawnAction::StartThread(2)));
    assert_eq!(pool.active_threads(), 3);
    assert!(matches!(pool.spawn(3), SpawnAction::Queued));
    assert!(matches!(pool.spawn(4), SpawnAction::Queued));
    assert!(matches!(pool.spawn(5), SpawnAction::Rejected(5)));
    assert_eq!(pool.active_threads(), 3);
}

#[test]
fn tasks_are_queued_while_a_thread_is_idle() {
    let mut pool: TaskPool<u8> = TaskPool::new(1, 3, 2);
    assert!(matches!(pool.started(None), WorkerAction::Wait));
    assert!(matches!(pool.spawn(1), SpawnAction::Queued));
    assert_eq!(pool.active_threads(), 1);
    assert!(matches!(pool.woken(false), WorkerAction::Run(1)));
    assert!(matches!(pool.spawn(2), SpawnAction::StartThread(2)));
}

#[test]
fn a_full_queue_rejects_even_with_an_idle_thread() {
    let mut pool: TaskPool<u8> = TaskPool::new(1, 3, 0);
    assert!(matches!(pool.next_task(), WorkerAction::Wait));
    assert!(matches!(pool.spawn(1), SpawnAction::Rejected(1)));
}

#[test]
fn the_oldest_task_comes_first() {
    let mut pool: TaskPool<u8> = TaskPool::new(1, 1, 10);
    for task in 1..5 {
        assert!(matches!(pool.spawn(task), SpawnAction::Queued));
    }
    for task in 1..5 {
        match pool.next_task() {
            WorkerAction::Run(t) => assert_eq!(t, task),
            other => panic!("unexpected {:?}", other),
        }
    }
}

#[test]
fn a_new_thread_runs_its_own_task_first() {
    let mut pool: TaskPool<u8> = TaskPool::new(1, 2, 10);
    assert!(matches!(pool.spawn(1), SpawnAction::StartThread(1)));
    assert!(matches!(pool.spawn(2), SpawnAction::Queued));
    assert!(matches!(pool.started(Some(1)), WorkerAction::Run(1)));
    assert!(matches!(pool.next_task(), WorkerAction::Run(2)));
}

#[test]
fn idle_threads_above_the_minimum_die() {
    assert_eq!(IDLE_TIMEOUT_MS, 5000);
    let mut pool: TaskPool<u8> = TaskPool::new(1, 3, 10);
    assert!(matches!(pool.spawn(1), SpawnAction::StartThread(1)));
    assert!(matches!(pool.spawn(2), SpawnAction::StartThread(2)));
    for _ in 0..3 {
        assert!(matches!(pool.next_task(), WorkerAction::WaitTimeout(5000)));
    }
    assert!(matches!(pool.woken(true), WorkerAction::Exit));
    assert!(matches!(pool.woken(true), WorkerAction::Exit));
    assert_eq!(pool.active_threads(), 1);
    // the last one stays, however long it is idle
    assert!(matches!(pool.woken(true), WorkerAction::Wait));
    assert_eq!(pool.active_threads(), 1);
}

#[test]
fn a_timeout_with_tasks_in_the_queue_is_no_end() {
    let mut pool: TaskPool<u8> = TaskPool::new(1, 2, 10);
    assert!(matches!(pool.spawn(1), SpawnAction::StartThread(1)));
    assert!(matches!(pool.next_task(), WorkerAction::WaitTimeout(5000)));
    assert!(matches!(pool.spawn(2), SpawnAction::Queued));
    assert!(matches!(pool.woken(true), WorkerAction::Run(2)));
    assert_eq!(pool.active_threads(), 2);
}

#[test]
fn shutdown_ends_threads_once_the_queue_is_empty() {
    let mut pool: TaskPool<u8> = TaskPool::new(1, 1, 10);
    assert!(matches!(pool.spawn(1), SpawnAction::Queued));
    pool.shut_down();
    assert!(matches!(pool.next_task(), WorkerAction::Run(1)));
    assert!(matches!(pool.next_task(), WorkerAction::Exit));
    assert_eq!(pool.active_threads(), 0);
}

#[test]
fn shutdown_ends_waiting_threads_when_woken() {
    let mut pool: TaskPool<u8> = TaskPool::new(1, 1, 10);
    assert!(matches!(pool.next_task(), WorkerAction::Wait));
    pool.shut_down();
    assert!(matches!(pool.woken(false), WorkerAction::Exit));
}

#[test]
fn a_lost_thread_is_replaced() {
    let mut pool: TaskPool<u8> = TaskPool::new(1, 1, 10);
    pool.panicked();
    assert_eq!(pool.active_threads(), 0);
    assert!(matches!(pool.spawn(1), SpawnAction::StartThread(1)));
    assert_eq!(pool.active_threads(), 1);
}

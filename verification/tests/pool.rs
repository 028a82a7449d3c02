use scamper::pool::{run_rdp_schedule, TaskPhase, WorkerPool, MAX_CONCURRENT};
use scamper::ThreadStatus;

#[test]
fn rdp_pool_empty_target_list() {
    let (pool, warns, dispatch_log) = run_rdp_schedule(0, &Vec::new());
    assert_eq!(pool.target_count(), 0);
    assert_eq!(pool.dispatched_count(), 0);
    assert_eq!(pool.joined_count(), 0);
    assert!(pool.all_joined());
    assert!(warns.is_empty());
    assert!(dispatch_log.is_empty());
}

#[test]
fn rdp_pool_dispatches_all_and_joins_all() {
    let ok = vec![true, true, true, true, true];
    let (pool, warns, dispatch_log) = run_rdp_schedule(5, &ok);
    assert_eq!(pool.dispatched_count(), 5);
    assert_eq!(dispatch_log, vec![0, 1, 2, 3, 4]);
    assert_eq!(pool.joined_count(), 5);
    assert_eq!(pool.active_count(), 0);
    assert!(pool.all_joined());
    for i in 0..5 {
        assert_eq!(pool.phase_of(i), TaskPhase::Joined);
    }
    assert_eq!(warns, vec![false, false, false, false, false]);
}

#[test]
fn rdp_pool_concurrency_cap_five_targets() {
    // Five targets, cap of three: drive the scheduler by hand and watch
    // the active count at every step.
    let mut pool = WorkerPool::new(5);
    assert_eq!(MAX_CONCURRENT, 3);

    assert_eq!(pool.dispatch_next(), 0);
    assert_eq!(pool.dispatch_next(), 1);
    assert_eq!(pool.dispatch_next(), 2);
    assert_eq!(pool.active_count(), 3);
    assert!(!pool.can_dispatch());

    pool.consume_signal(0);
    assert_eq!(pool.active_count(), 2);
    assert!(pool.can_dispatch());
    assert_eq!(pool.dispatch_next(), 3);
    assert_eq!(pool.active_count(), 3);
    assert!(pool.active_count() <= MAX_CONCURRENT);

    pool.consume_signal(1);
    assert_eq!(pool.dispatch_next(), 4);
    assert_eq!(pool.active_count(), 3);
    assert_eq!(pool.dispatched_count(), 5);
    assert!(!pool.can_dispatch());

    pool.consume_signal(2);
    pool.consume_signal(3);
    pool.consume_signal(4);
    assert_eq!(pool.active_count(), 0);

    for i in 0..5 {
        assert_eq!(pool.phase_of(i), TaskPhase::Completed);
        assert!(!pool.all_joined());
        let warn = pool.join_task(i, true);
        assert!(!warn);
    }
    assert!(pool.all_joined());
    assert_eq!(pool.joined_count(), 5);
}

#[test]
fn rdp_failed_target_isolated() {
    // Target 2 fails internally; every other target still reaches the
    // joined terminal state and only target 2 draws a warning.
    let ok = vec![true, true, false, true, true];
    let (pool, warns, _dispatch_log) = run_rdp_schedule(5, &ok);
    assert!(pool.all_joined());
    for i in 0..5 {
        assert_eq!(pool.phase_of(i), TaskPhase::Joined);
    }
    assert_eq!(warns, vec![false, false, true, false, false]);
}

#[test]
fn rdp_all_targets_failing_still_joins_all() {
    let ok = vec![false, false, false, false];
    let (pool, warns, _dispatch_log) = run_rdp_schedule(4, &ok);
    assert!(pool.all_joined());
    assert_eq!(warns, vec![true, true, true, true]);
}

#[test]
fn rdp_join_reports_warning_for_failed_capture() {
    let mut pool = WorkerPool::new(1);
    pool.dispatch_next();
    pool.consume_signal(0);
    let warn = pool.join_task(0, false);
    assert!(warn);
    assert!(pool.all_joined());
}

#[test]
fn rdp_phases_follow_task_lifecycle() {
    let mut pool = WorkerPool::new(2);
    assert_eq!(pool.phase_of(0), TaskPhase::Idle);
    assert_eq!(pool.phase_of(1), TaskPhase::Idle);
    pool.dispatch_next();
    assert_eq!(pool.phase_of(0), TaskPhase::Running);
    assert_eq!(pool.phase_of(1), TaskPhase::Idle);
    pool.consume_signal(0);
    assert_eq!(pool.phase_of(0), TaskPhase::Completed);
    pool.join_task(0, true);
    assert_eq!(pool.phase_of(0), TaskPhase::Joined);
}

#[test]
fn thread_status_signal_is_complete() {
    let status = ThreadStatus::Complete;
    assert!(matches!(status, ThreadStatus::Complete));
}

use loadtest_worker::backoff::DRAW_SCALE;
use loadtest_worker::models::WorkerStatus;
use loadtest_worker::worker::{
    heartbeat_key, LeaseReply, Runtime, RuntimeAction, HEARTBEAT_TTL_SECS, POLL_MAX_MS,
    POLL_MIN_MS, QUEUE_ERROR_SLEEP_MS,
};

#[test]
fn constants_of_the_runtime() {
    assert_eq!(POLL_MIN_MS, 500);
    assert_eq!(POLL_MAX_MS, 1000);
    assert_eq!(QUEUE_ERROR_SLEEP_MS, 5000);
    assert_eq!(HEARTBEAT_TTL_SECS, 60);
}

#[test]
fn fresh_runtime_asks_the_queue() {
    let r = Runtime::new(1);
    assert_eq!(r.next_action(), RuntimeAction::Lease);
    assert_eq!(r.active_tasks(), 0);
    assert_eq!(r.requests_processed(), 0);
    assert_eq!(r.status(), WorkerStatus::Idle);
}

#[test]
fn empty_queue_means_a_short_sleep() {
    let r = Runtime::new(1);
    assert_eq!(r.on_lease(LeaseReply::Empty, 0), RuntimeAction::Sleep(500));
    assert_eq!(r.on_lease(LeaseReply::Empty, DRAW_SCALE / 2), RuntimeAction::Sleep(750));
    assert_eq!(r.on_lease(LeaseReply::Empty, DRAW_SCALE), RuntimeAction::Sleep(1000));
    assert_eq!(r.on_lease(LeaseReply::Empty, u32::MAX), RuntimeAction::Sleep(1000));
    assert_eq!(r.on_lease(LeaseReply::Empty, DRAW_SCALE / 5), RuntimeAction::Sleep(600));
}

#[test]
fn unreachable_queue_means_a_long_sleep() {
    let r = Runtime::new(1);
    assert_eq!(r.on_lease(LeaseReply::Failed, 0), RuntimeAction::Sleep(5000));
    assert_eq!(r.on_lease(LeaseReply::Failed, DRAW_SCALE), RuntimeAction::Sleep(5000));
}

#[test]
fn a_leased_job_is_run() {
    let r = Runtime::new(1);
    assert_eq!(r.on_lease(LeaseReply::Leased, 0), RuntimeAction::Run);
}

#[test]
fn one_job_at_a_time_when_the_limit_is_one() {
    let mut r = Runtime::new(1);
    assert!(r.job_started());
    assert_eq!(r.active_tasks(), 1);
    assert_eq!(r.status(), WorkerStatus::Busy);
    assert_eq!(r.next_action(), RuntimeAction::Hold);
    assert_eq!(r.on_lease(LeaseReply::Leased, 0), RuntimeAction::Hold);
    assert!(!r.job_started());
    assert_eq!(r.active_tasks(), 1);
    r.job_finished(1100);
    assert_eq!(r.active_tasks(), 0);
    assert_eq!(r.requests_processed(), 1100);
    assert_eq!(r.next_action(), RuntimeAction::Lease);
    assert!(r.job_started());
    r.job_finished(50);
    assert_eq!(r.requests_processed(), 1150);
}

#[test]
fn limit_of_zero_behaves_as_one() {
    let mut r = Runtime::new(0);
    assert_eq!(r.next_action(), RuntimeAction::Lease);
    assert!(r.job_started());
    assert!(!r.job_started());
    assert_eq!(r.active_tasks(), 1);
}

#[test]
fn several_jobs_up_to_the_limit() {
    let mut r = Runtime::new(3);
    assert!(r.job_started());
    assert!(r.job_started());
    assert_eq!(r.next_action(), RuntimeAction::Lease);
    assert!(r.job_started());
    assert_eq!(r.next_action(), RuntimeAction::Hold);
    assert!(!r.job_started());
    assert_eq!(r.active_tasks(), 3);
}

#[test]
fn draining_worker_takes_no_job_and_stops_when_idle() {
    let mut r = Runtime::new(2);
    assert!(r.job_started());
    r.stop_accepting();
    assert_eq!(r.status(), WorkerStatus::Draining);
    assert_eq!(r.next_action(), RuntimeAction::Hold);
    assert_eq!(r.on_lease(LeaseReply::Leased, 0), RuntimeAction::Hold);
    assert!(!r.job_started());
    r.job_finished(10);
    assert_eq!(r.status(), WorkerStatus::Offline);
    assert_eq!(r.next_action(), RuntimeAction::Exit);
    assert_eq!(r.on_lease(LeaseReply::Leased, 0), RuntimeAction::Exit);
    assert!(!r.job_started());
}

#[test]
fn finishing_without_a_job_changes_only_the_count() {
    let mut r = Runtime::new(1);
    r.job_finished(5);
    assert_eq!(r.active_tasks(), 0);
    assert_eq!(r.requests_processed(), 5);
    r.job_finished(u64::MAX);
    assert_eq!(r.requests_processed(), u64::MAX);
}

#[test]
fn heartbeat_tells_the_state() {
    let mut r = Runtime::new(2);
    r.job_started();
    r.job_finished(321);
    r.job_started();
    let hb = r.heartbeat("w-1", 1_700_000_000_123, Some("task-9".to_string()), 375, 2_098_176);
    assert_eq!(hb.worker_id, "w-1");
    assert_eq!(hb.timestamp_ms, 1_700_000_000_123);
    assert_eq!(hb.status, WorkerStatus::Busy);
    assert_eq!(hb.current_task_id.as_deref(), Some("task-9"));
    assert_eq!(hb.requests_processed, 321);
    assert_eq!(hb.cpu_permille, 375);
    assert_eq!(hb.memory_mb, 2049);
    assert_eq!(hb.active_tasks, 1);
    let idle = Runtime::new(1).heartbeat("w-2", 0, None, 0, 1023);
    assert_eq!(idle.status, WorkerStatus::Idle);
    assert_eq!(idle.memory_mb, 0);
    assert_eq!(idle.current_task_id, None);
}

#[test]
fn heartbeat_key_is_prefix_colon_identity() {
    assert_eq!(heartbeat_key("loadtest:heartbeat", "w-1"), "loadtest:heartbeat:w-1");
    assert_eq!(heartbeat_key("", ""), ":");
    assert_eq!(heartbeat_key("hb", ""), "hb:");
}

//! Backoff schedule and working-area tests.

use std::collections::HashSet;
use html_view::{backoff_delays, next_delay, work_area_dir_name, WorkAreaGuard};

#[test]
fn test_exponential_backoff_timing() {
    // The schedule doubles from the base delay and is capped at the
    // maximum.
    let delays = backoff_delays(10, 1000, 10);

    assert_eq!(delays[0], 10);
    assert_eq!(delays[1], 20);
    assert_eq!(delays[2], 40);
    assert_eq!(delays[3], 80);
    assert_eq!(delays[4], 160);
    assert_eq!(delays[5], 320);
    assert_eq!(delays[6], 640);
    assert_eq!(delays[7], 1000); // Capped at max
    assert_eq!(delays[8], 1000); // Stays at max
    assert_eq!(delays[9], 1000); // Stays at max
}

#[test]
fn test_exponential_backoff_total_wait_time() {
    // Total wait time for 10 attempts
    let delays = backoff_delays(10, 1000, 10);
    let total_wait: u64 = delays.iter().sum();

    // 10 + 20 + 40 + 80 + 160 + 320 + 640 + 1000 + 1000 + 1000 = 4270ms
    assert_eq!(total_wait, 4270);

    // Verify this is reasonable for a timeout scenario
    assert!(total_wait < 5000);
    assert!(total_wait > 4000);
}

#[test]
fn test_max_attempts_limit() {
    // Verify that polling stops after max_attempts
    const MAX_ATTEMPTS: usize = 10;

    let mut attempts = 0;
    for i in 0..MAX_ATTEMPTS {
        attempts = i + 1;
    }

    assert_eq!(attempts, MAX_ATTEMPTS);
    assert_eq!(backoff_delays(10, 1000, MAX_ATTEMPTS).len(), MAX_ATTEMPTS);
}

#[test]
fn test_backoff_never_exceeds_max_delay() {
    // Verify delay never exceeds max even after many iterations
    let max_delay: u64 = 1000;

    let mut current_delay: u64 = 10;

    for _ in 0..100 {
        // Even after 100 iterations
        current_delay = next_delay(current_delay, max_delay);
        assert!(current_delay <= max_delay);
    }

    assert_eq!(current_delay, max_delay);
}

#[test]
fn test_work_area_name_from_id() {
    let dir = work_area_dir_name("0123-abcd");
    assert_eq!(dir, "html_view_0123-abcd");
}

#[test]
fn test_work_area_unique_per_request() {
    // Generating many fresh ids produces as many distinct working areas.
    let mut dirs: HashSet<String> = HashSet::new();
    for _ in 0..100 {
        let id = uuid::Uuid::new_v4().to_string();
        assert!(dirs.insert(work_area_dir_name(&id)), "working-area collision");
    }
    assert_eq!(dirs.len(), 100);
}

#[test]
fn test_guard_removes_exactly_once() {
    // An armed guard hands its directory out for removal exactly once.
    let mut guard = WorkAreaGuard::new("html_view_test_area".to_string());
    assert!(guard.is_armed());
    assert_eq!(guard.finish(), Some("html_view_test_area".to_string()));
    assert!(!guard.is_armed());
    assert_eq!(guard.finish(), None);
}

#[test]
fn test_guard_disarm_transfers_ownership() {
    // Disabling cleanup first means the guard never removes anything.
    let mut guard = WorkAreaGuard::new("html_view_test_area".to_string());
    guard.disarm();
    assert!(!guard.is_armed());
    assert_eq!(guard.finish(), None);
}

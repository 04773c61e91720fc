use lact_daemon::fdinfo::{FdInfoUtil, ProcessUtilizationType};
use lact_daemon::process::DrmUtilTracker;

fn util(id: u64, counter: u64) -> FdInfoUtil {
    FdInfoUtil {
        client_id: id,
        memory_used: 4096,
        total_time: vec![(ProcessUtilizationType::Graphics, counter), (ProcessUtilizationType::Compute, 0)],
    }
}

#[test]
fn second_poll_defines_utilization() {
    let mut tracker = DrmUtilTracker::new();
    let first = tracker.poll(1_000_000_000, vec![util(3, 28_257_900)]);
    assert_eq!(first.len(), 1);
    assert_eq!(first[0].client_id, 3);
    assert!(first[0].utilization.is_none());
    let second = tracker.poll(2_000_000_000, vec![util(3, 528_257_900)]);
    let shares = second[0].utilization.clone().unwrap();
    assert_eq!(shares[0], (ProcessUtilizationType::Graphics, Some(50)));
    assert_eq!(shares[1], (ProcessUtilizationType::Compute, Some(0)));
    assert_eq!(second[0].total_time[0], (ProcessUtilizationType::Graphics, 528_257_900));
}

#[test]
fn exited_clients_are_forgotten() {
    let mut tracker = DrmUtilTracker::new();
    tracker.poll(10, vec![util(1, 0), util(2, 0)]);
    tracker.poll(20, vec![util(2, 5)]);
    assert_eq!(tracker.last.len(), 1);
    let third = tracker.poll(30, vec![util(1, 5), util(2, 10)]);
    assert!(third[0].utilization.is_none());
    assert!(third[1].utilization.is_some());
}

#[test]
fn decreasing_counter_has_no_share() {
    let mut tracker = DrmUtilTracker::new();
    tracker.poll(10, vec![util(7, 100)]);
    let next = tracker.poll(20, vec![util(7, 50)]);
    assert_eq!(next[0].utilization.clone().unwrap()[0], (ProcessUtilizationType::Graphics, None));
}

#[test]
fn share_is_held_to_one_hundred() {
    let mut tracker = DrmUtilTracker::new();
    tracker.poll(10, vec![util(7, 0)]);
    let next = tracker.poll(20, vec![util(7, 1000)]);
    assert_eq!(next[0].utilization.clone().unwrap()[0], (ProcessUtilizationType::Graphics, Some(100)));
}

#[test]
fn repeated_client_counts_once() {
    let mut tracker = DrmUtilTracker::new();
    let first = tracker.poll(10, vec![util(4, 10), util(4, 99), util(5, 0)]);
    assert_eq!(first.len(), 2);
    assert_eq!(first[0].total_time[0], (ProcessUtilizationType::Graphics, 10));
    assert_eq!(first[1].client_id, 5);
    assert_eq!(tracker.last.len(), 2);
}

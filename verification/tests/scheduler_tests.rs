//! Scheduler state machine and cycle planning, and the peer table's
//! membership lifecycle.

use netpulse::{
    plan_cycle, MeasurementType, PeerState, PeerTable, Scheduler,
};

#[test]
fn plan_follows_classification_policy() {
    let targets = vec![
        String::from("https://example.com"),
        String::from("10.0.0.5"),
        String::from("localhost"),
    ];
    let jobs = plan_cycle(&targets);
    assert_eq!(jobs.len(), 3);
    assert_eq!(jobs[0].target, "https://example.com");
    assert_eq!(jobs[0].kind, MeasurementType::Http);
    assert_eq!(jobs[1].target, "10.0.0.5");
    assert_eq!(jobs[1].kind, MeasurementType::Dns);
    assert_eq!(jobs[2].target, "10.0.0.5");
    assert_eq!(jobs[2].kind, MeasurementType::Ping);
}

#[test]
fn cycles_do_not_overlap() {
    let mut s = Scheduler::new(vec![String::from("example.com")], 60_000_000);
    let first = s.begin_cycle();
    assert!(first.is_some());
    // A tick while the cycle is still running starts nothing.
    assert!(s.begin_cycle().is_none());
    s.finish_cycle();
    assert!(s.begin_cycle().is_some());
}

#[test]
fn no_cycle_after_shutdown() {
    let mut s = Scheduler::new(vec![String::from("example.com")], 60_000_000);
    s.request_shutdown();
    assert!(s.shutting_down());
    assert!(s.begin_cycle().is_none());
}

#[test]
fn peer_lifecycle() {
    let mut table = PeerTable::new();
    table.merge_discovered(&vec![5, 6], 1_000);
    assert_eq!(table.len(), 2);
    assert!(table.contains(5));

    // Merging again adds nothing and changes nothing.
    table.merge_discovered(&vec![5, 6], 9_000);
    assert_eq!(table.len(), 2);
    assert_eq!(table.record_at(0).state, PeerState::Discovered);

    table.record_success(5, 2_000);
    assert_eq!(table.record_at(0).state, PeerState::Connected);
    assert_eq!(table.record_at(0).last_seen_micros, 2_000);

    // Three consecutive failures with threshold 3: unreachable.
    table.record_failure(6, 3);
    table.record_failure(6, 3);
    assert_eq!(table.record_at(1).state, PeerState::Discovered);
    table.record_failure(6, 3);
    assert_eq!(table.record_at(1).state, PeerState::Unreachable);

    // Both peers were last seen more than 5_000 before 10_000: evicted.
    table.evict_stale(10_000, 5_000);
    assert_eq!(table.len(), 0);

    table.merge_discovered(&vec![7], 9_000);
    table.evict_stale(10_000, 5_000);
    assert_eq!(table.len(), 1);
    assert!(table.contains(7));
}

#[test]
fn connected_ids_lists_only_connected_peers() {
    let mut table = PeerTable::new();
    table.merge_discovered(&vec![1, 2, 3], 0);
    table.record_success(2, 10);
    let ids = table.connected_ids();
    assert_eq!(ids, vec![2]);
}

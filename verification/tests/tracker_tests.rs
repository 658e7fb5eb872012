//! Connection tracker behaviour: the distribution invariant, monotone status
//! transitions, completion statistics, and the stale sweep.

use zephyr_proxy::events::ConnectionStatus;
use zephyr_proxy::tracker::{generate_connection_id, ConnectionTracker};

#[test]
fn distribution_follows_active_connections() {
    let mut t = ConnectionTracker::new();
    t.start_connection("c1".to_string(), "X".to_string(), 0);
    t.start_connection("c2".to_string(), "X".to_string(), 10);
    t.start_connection("c3".to_string(), "Y".to_string(), 20);
    let dist = t.get_endpoint_distribution();
    assert_eq!(dist, vec![("X".to_string(), 2), ("Y".to_string(), 1)]);
    assert_eq!(t.get_active_count(), 3);
    let _ = t.complete_connection(&"c1".to_string(), 100);
    let dist = t.get_endpoint_distribution();
    assert_eq!(dist, vec![("X".to_string(), 1), ("Y".to_string(), 1)]);
    let _ = t.complete_connection(&"c2".to_string(), 120);
    let dist = t.get_endpoint_distribution();
    assert_eq!(dist, vec![("Y".to_string(), 1)]);
}

#[test]
fn status_transitions_never_move_backward() {
    let mut t = ConnectionTracker::new();
    t.start_connection("c1".to_string(), "X".to_string(), 0);
    let c = t
        .update_connection_status(&"c1".to_string(), ConnectionStatus::Processing)
        .unwrap();
    assert_eq!(c.status, ConnectionStatus::Processing);
    // A request to fall back to Connecting is ignored.
    let c = t
        .update_connection_status(&"c1".to_string(), ConnectionStatus::Connecting)
        .unwrap();
    assert_eq!(c.status, ConnectionStatus::Processing);
    let c = t
        .update_connection_status(&"c1".to_string(), ConnectionStatus::Finishing)
        .unwrap();
    assert_eq!(c.status, ConnectionStatus::Finishing);
    assert!(t
        .update_connection_status(&"missing".to_string(), ConnectionStatus::Finishing)
        .is_none());
}

#[test]
fn completion_tracks_count_and_exact_mean() {
    let mut t = ConnectionTracker::new();
    t.start_connection("c1".to_string(), "X".to_string(), 0);
    t.start_connection("c2".to_string(), "X".to_string(), 0);
    t.start_connection("c3".to_string(), "X".to_string(), 0);
    let c1 = t.complete_connection(&"c1".to_string(), 100).unwrap();
    assert_eq!(c1.id, "c1");
    let _ = t.complete_connection(&"c2".to_string(), 200);
    let _ = t.complete_connection(&"c3".to_string(), 350);
    let stats = t.get_stats();
    assert_eq!(stats.total_completed, 3);
    // Durations 100, 200, 350: streaming mean (100), (100+200)/2 = 150,
    // (150*2+350)/3 = 216.
    assert_eq!(stats.average_duration_ms, 216);
    assert_eq!(stats.peak_concurrent, 3);
    assert!(t.complete_connection(&"c1".to_string(), 400).is_none());
}

#[test]
fn stale_cleanup_removes_only_old_connections() {
    let mut t = ConnectionTracker::new();
    // Aged 70 s and 10 s at the sweep instant.
    t.start_connection("old".to_string(), "X".to_string(), 0);
    t.start_connection("fresh".to_string(), "Y".to_string(), 60_000);
    let removed = t.cleanup_stale_connections(60, 70_000);
    assert_eq!(removed, vec!["old".to_string()]);
    assert_eq!(t.get_stats().total_failed, 1);
    assert_eq!(t.get_active_count(), 1);
    assert_eq!(t.get_endpoint_distribution(), vec![("Y".to_string(), 1)]);
    assert_eq!(t.get_active_connections()[0].id, "fresh");
}

#[test]
fn orphaned_cleanup_keeps_only_the_routed_endpoint() {
    let mut t = ConnectionTracker::new();
    t.start_connection("c1".to_string(), "X".to_string(), 0);
    t.start_connection("c2".to_string(), "Y".to_string(), 0);
    t.start_connection("c3".to_string(), "X".to_string(), 0);
    let removed = t.cleanup_orphaned_connections(&"X".to_string());
    assert_eq!(removed, vec!["c2".to_string()]);
    assert_eq!(t.get_active_count(), 2);
    assert_eq!(t.get_stats().total_failed, 0);
}

#[test]
fn force_cleanup_empties_the_tracker() {
    let mut t = ConnectionTracker::new();
    t.start_connection("c1".to_string(), "X".to_string(), 0);
    t.start_connection("c2".to_string(), "Y".to_string(), 0);
    let ids = t.force_cleanup_all_connections();
    assert_eq!(ids, vec!["c1".to_string(), "c2".to_string()]);
    assert_eq!(t.get_active_count(), 0);
    assert!(t.get_endpoint_distribution().is_empty());
}

#[test]
fn diagnostics_report_ages_and_counts() {
    let mut t = ConnectionTracker::new();
    t.start_connection("c1".to_string(), "X".to_string(), 0);
    t.start_connection("c2".to_string(), "X".to_string(), 4_000);
    let d = t.get_connection_diagnostics(10_000);
    assert_eq!(d.total_active, 2);
    assert_eq!(d.duration_stats, vec![10, 6]);
    assert_eq!(d.endpoint_counts, vec![("X".to_string(), 2)]);
    assert_eq!(d.longest_connection_seconds(), 10);
    assert_eq!(d.average_duration_seconds(), 8);
}

#[test]
fn empty_diagnostics_yield_zeroes() {
    let t = ConnectionTracker::new();
    let d = t.get_connection_diagnostics(10_000);
    assert_eq!(d.total_active, 0);
    assert_eq!(d.longest_connection_seconds(), 0);
    assert_eq!(d.average_duration_seconds(), 0);
}

#[test]
fn connection_ids_carry_timestamp_and_counter() {
    assert_eq!(generate_connection_id(1_700_000_000_000, 42), "conn_1700000000000_42");
    assert_eq!(generate_connection_id(0, 0), "conn_0_0");
}

#[test]
fn connections_for_endpoint_filters_by_url() {
    let mut t = ConnectionTracker::new();
    t.start_connection("c1".to_string(), "X".to_string(), 0);
    t.start_connection("c2".to_string(), "Y".to_string(), 0);
    t.start_connection("c3".to_string(), "X".to_string(), 0);
    let for_x = t.get_connections_for_endpoint(&"X".to_string());
    assert_eq!(for_x.len(), 2);
    assert_eq!(for_x[0].id, "c1");
    assert_eq!(for_x[1].id, "c3");
}

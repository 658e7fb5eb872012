//! Latency history and endpoint status behaviour.

use zephyr_proxy::health::{find_best_endpoint, interpret_probe_outcome, EndpointStatus, ProbeOutcome};
use zephyr_proxy::history::LatencyHistory;

#[test]
fn history_keeps_at_most_twenty_measurements() {
    let mut h = LatencyHistory::new_default();
    let mut t: u64 = 0;
    while t < 25 {
        h.add_measurement(Some(t), None, t);
        t += 1;
    }
    let ms = h.get_measurements();
    assert_eq!(ms.len(), 20);
    // The five oldest were evicted.
    assert_eq!(ms[0].timestamp_ms, 5);
    assert_eq!(ms[19].timestamp_ms, 24);
}

#[test]
fn history_average_ignores_failures() {
    let mut h = LatencyHistory::new(10);
    h.add_measurement(Some(100), None, 0);
    h.add_measurement(None, Some("down".to_string()), 1);
    h.add_measurement(Some(200), None, 2);
    assert_eq!(h.average_latency(), Some(150));
    let empty = LatencyHistory::new(10);
    assert_eq!(empty.average_latency(), None);
}

#[test]
fn history_counts_recent_failures() {
    let mut h = LatencyHistory::new(10);
    h.add_measurement(None, Some("a".to_string()), 0);
    h.add_measurement(Some(5), None, 1);
    h.add_measurement(None, Some("b".to_string()), 2);
    h.add_measurement(None, Some("c".to_string()), 3);
    assert_eq!(h.recent_failure_count(2), 2);
    assert_eq!(h.recent_failure_count(3), 2);
    assert_eq!(h.recent_failure_count(10), 3);
}

#[test]
fn history_latest_is_the_newest() {
    let mut h = LatencyHistory::new(3);
    assert!(h.get_latest().is_none());
    h.add_measurement(Some(7), None, 11);
    assert_eq!(h.get_latest().unwrap().timestamp_ms, 11);
}

#[test]
fn available_status_has_no_error_and_a_real_latency() {
    let st = EndpointStatus::new_available("A".to_string(), 80, 1000);
    assert!(st.available);
    assert_eq!(st.error, None);
    assert_ne!(st.latency, 999_999);
    let failed = EndpointStatus::new_unavailable("A".to_string(), "down".to_string(), 1000);
    assert!(!failed.available);
    assert_eq!(failed.latency, 999_999);
    assert_eq!(failed.error, Some("down".to_string()));
    let checking = EndpointStatus::new_checking("A".to_string(), 1000);
    assert!(!checking.available);
    assert_eq!(checking.error, None);
}

#[test]
fn update_with_check_result_flips_both_ways() {
    let mut st = EndpointStatus::new_unavailable("A".to_string(), "down".to_string(), 0);
    st.update_with_check_result(Some(42), None, 10);
    assert!(st.available);
    assert_eq!(st.latency, 42);
    assert_eq!(st.error, None);
    assert_eq!(st.last_check_ms, 10);
    st.update_with_check_result(None, Some("timeout".to_string()), 20);
    assert!(!st.available);
    assert_eq!(st.latency, 999_999);
    assert_eq!(st.error, Some("timeout".to_string()));
    assert_eq!(st.latency_history.get_measurements().len(), 3);
}

#[test]
fn probe_timeout_yields_a_descriptive_error() {
    let st = interpret_probe_outcome("A".to_string(), ProbeOutcome::TimedOut, 10, 0, 500);
    assert!(!st.available);
    assert_eq!(st.error, Some("Health check timed out after 10s".to_string()));
}

#[test]
fn probe_disconnect_and_exec_errors_are_reported() {
    let st = interpret_probe_outcome("A".to_string(), ProbeOutcome::Disconnected, 10, 0, 500);
    assert_eq!(st.error, Some("Health check thread disconnected".to_string()));
    let st = interpret_probe_outcome(
        "A".to_string(),
        ProbeOutcome::ExecError {
            message: "no such file".to_string(),
        },
        10,
        0,
        500,
    );
    assert_eq!(
        st.error,
        Some("Health check execution error: no such file".to_string())
    );
}

#[test]
fn probe_success_needs_clean_exit_and_output() {
    let st = interpret_probe_outcome(
        "A".to_string(),
        ProbeOutcome::Completed {
            success: true,
            stdout_empty: false,
            stderr: None,
        },
        10,
        75,
        500,
    );
    assert!(st.available);
    assert_eq!(st.latency, 75);
    let st = interpret_probe_outcome(
        "A".to_string(),
        ProbeOutcome::Completed {
            success: true,
            stdout_empty: true,
            stderr: None,
        },
        10,
        75,
        500,
    );
    assert!(!st.available);
    assert_eq!(st.error, Some("No output from probe command".to_string()));
    let st = interpret_probe_outcome(
        "A".to_string(),
        ProbeOutcome::Completed {
            success: false,
            stdout_empty: false,
            stderr: Some("boom".to_string()),
        },
        10,
        75,
        500,
    );
    assert_eq!(st.error, Some("boom".to_string()));
}

#[test]
fn best_endpoint_must_beat_current_by_more_than_threshold() {
    let statuses = vec![
        EndpointStatus::new_available("A".to_string(), 120, 0),
        EndpointStatus::new_available("B".to_string(), 60, 0),
        EndpointStatus::new_unavailable("C".to_string(), "down".to_string(), 0),
    ];
    // 60 + 50 < 120: switch proposed.
    assert_eq!(
        find_best_endpoint(&statuses, &"A".to_string(), 50),
        Some("B".to_string())
    );
    // 60 + 60 < 120 fails: no switch.
    assert_eq!(find_best_endpoint(&statuses, &"A".to_string(), 60), None);
    // The best endpoint is the current one: no switch.
    assert_eq!(find_best_endpoint(&statuses, &"B".to_string(), 0), None);
}

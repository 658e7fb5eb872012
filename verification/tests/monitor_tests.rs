//! The dashboard view: event absorption and load reclassification.

use zephyr_proxy::events::{ProxyEvent, SelectionMode};
use zephyr_proxy::health::EndpointStatus;
use zephyr_proxy::load::LoadLevel;
use zephyr_proxy::monitor::{truncate_text_safely, DashboardView};

fn fresh_view() -> DashboardView {
    DashboardView::new("A".to_string(), 30, 1000)
}

#[test]
fn health_updates_replace_by_url() {
    let mut view = fresh_view();
    view.handle_proxy_event(ProxyEvent::HealthUpdate(EndpointStatus::new_available(
        "A".to_string(),
        80,
        10,
    )));
    view.handle_proxy_event(ProxyEvent::HealthUpdate(EndpointStatus::new_available(
        "B".to_string(),
        90,
        10,
    )));
    view.handle_proxy_event(ProxyEvent::HealthUpdate(EndpointStatus::new_unavailable(
        "A".to_string(),
        "down".to_string(),
        20,
    )));
    assert_eq!(view.endpoint_health.len(), 2);
    assert!(!view.endpoint_health[0].available);
    assert_eq!(view.endpoint_health[0].endpoint, "A");
    assert!(view.endpoint_health[1].available);
}

#[test]
fn cycle_events_drive_the_countdown() {
    let mut view = fresh_view();
    view.handle_proxy_event(ProxyEvent::HealthCheckStarted {
        interval_secs: 45,
        next_check_time_ms: 46_000,
        load_level: LoadLevel::Low,
        active_connections: 2,
    });
    assert_eq!(view.next_health_check_ms, 46_000);
    assert_eq!(view.health_check_interval_secs, 45);
    assert_eq!(view.current_load_level, LoadLevel::Low);
    view.handle_proxy_event(ProxyEvent::HealthCheckRunning {
        started_at_ms: 1000,
        estimated_duration_secs: 15,
    });
    assert_eq!(view.health_check_running, Some((1000, 15)));
    view.handle_proxy_event(ProxyEvent::HealthCheckCompleted { duration_ms: 900 });
    assert_eq!(view.health_check_running, None);
}

#[test]
fn switch_events_remember_the_improvement() {
    let mut view = fresh_view();
    view.handle_proxy_event(ProxyEvent::EndpointSwitch {
        from: "A".to_string(),
        to: "B".to_string(),
        from_latency: 120,
        to_latency: 45,
    });
    assert_eq!(view.current_endpoint, "B");
    let info = view.last_switch.as_ref().unwrap();
    assert_eq!(info.improvement, 75);
    assert_eq!(info.from, "A");
}

#[test]
fn pause_mode_and_selection_events_set_their_fields() {
    let mut view = fresh_view();
    view.handle_proxy_event(ProxyEvent::SystemPaused);
    assert!(view.paused);
    view.handle_proxy_event(ProxyEvent::SystemResumed);
    assert!(!view.paused);
    view.handle_proxy_event(ProxyEvent::SelectionModeChanged {
        mode: SelectionMode::Manual,
    });
    assert_eq!(view.selection_mode, SelectionMode::Manual);
    view.handle_proxy_event(ProxyEvent::ManualEndpointSelected {
        endpoint: "C".to_string(),
        endpoint_index: 2,
    });
    assert_eq!(view.current_endpoint, "C");
    assert_eq!(view.manual_selected_index, Some(2));
}

#[test]
fn request_arrivals_reclassify_the_load() {
    let mut view = fresh_view();
    assert_eq!(view.current_load_level, LoadLevel::Idle);
    view.handle_proxy_event(ProxyEvent::RequestReceived {
        endpoint: "A".to_string(),
        timestamp_ms: 10_000,
    });
    view.handle_proxy_event(ProxyEvent::RequestReceived {
        endpoint: "A".to_string(),
        timestamp_ms: 11_000,
    });
    // Two arrivals in the last minute and no connections: low load.
    assert_eq!(view.current_load_level, LoadLevel::Low);
    // Six minutes later both arrivals have aged out.
    view.handle_proxy_event(ProxyEvent::RequestReceived {
        endpoint: "A".to_string(),
        timestamp_ms: 371_000,
    });
    assert_eq!(view.recent_requests, vec![371_000]);
    assert_eq!(view.current_load_level, LoadLevel::Idle);
}

#[test]
fn connection_events_leave_the_view_alone() {
    let mut view = fresh_view();
    view.handle_proxy_event(ProxyEvent::ConnectionCompleted("c1".to_string()));
    view.handle_proxy_event(ProxyEvent::ServerStarted { port: 8080 });
    view.handle_proxy_event(ProxyEvent::ManualRefreshTriggered);
    assert_eq!(view.current_endpoint, "A");
    assert_eq!(view.endpoint_health.len(), 0);
    assert!(!view.paused);
}

#[test]
fn truncation_keeps_short_text_and_marks_long_text() {
    assert_eq!(truncate_text_safely(&"short".to_string(), 10), "short");
    assert_eq!(
        truncate_text_safely(&"a-rather-long-url".to_string(), 10),
        "a-rathe..."
    );
    assert_eq!(truncate_text_safely(&"abc".to_string(), 3), "abc");
    assert_eq!(truncate_text_safely(&"abcd".to_string(), 2), "...");
}

//! Shared proxy state and the transition-driven state manager.

use zephyr_proxy::config::{
    Config, Group, HealthCheckConfig, LoggingConfig, RetryConfig, ServerConfig, SimpleEndpoint,
    UiConfig,
};
use zephyr_proxy::events::SelectionMode;
use zephyr_proxy::health::EndpointStatus;
use zephyr_proxy::i18n::Language;
use zephyr_proxy::state::ProxyState;
use zephyr_proxy::state_manager::{
    ProxyStateManager, ProxyStateTransition, SwitchReason,
};

fn make_config(urls: &[&str]) -> Config {
    Config {
        server: ServerConfig {
            port: 8080,
            switch_threshold_ms: 50,
            graceful_switch_timeout_ms: 30000,
        },
        groups: vec![Group {
            name: "main".to_string(),
            auth_token_env: "MAIN_TOKEN".to_string(),
            auth_token: Some("tok".to_string()),
            endpoints: urls
                .iter()
                .map(|u| SimpleEndpoint {
                    url: u.to_string(),
                    name: format!("name-{u}"),
                })
                .collect(),
            default: None,
            health_check: None,
        }],
        health_check: HealthCheckConfig {
            interval_seconds: 30,
            min_interval_seconds: None,
            max_interval_seconds: None,
            dynamic_scaling: false,
            timeout_seconds: 10,
            probe_binary_path: "probe".to_string(),
        },
        retry: RetryConfig::default(),
        logging: LoggingConfig::default(),
        ui: UiConfig {
            language: Language::En,
        },
    }
}

#[test]
fn fresh_state_covers_every_endpoint_unavailable() {
    let state = ProxyState::new(make_config(&["A", "B"]), 500);
    assert_eq!(state.current_endpoint, "A");
    assert_eq!(state.selection_mode, SelectionMode::Auto);
    assert_eq!(state.endpoint_status.len(), 2);
    for st in &state.endpoint_status {
        assert!(!st.available);
        assert_eq!(st.latency, 999_999);
        assert_eq!(st.error, Some("Not checked yet".to_string()));
        assert_eq!(st.last_check_ms, 500);
    }
}

#[test]
fn switching_twice_equals_switching_once() {
    let mut state = ProxyState::new(make_config(&["A", "B"]), 500);
    let first = state.switch_endpoint("B".to_string());
    assert!(first.is_some());
    let after_once = (state.current_endpoint.clone(), state.selection_mode);
    let second = state.switch_endpoint("B".to_string());
    assert!(second.is_none());
    assert_eq!((state.current_endpoint.clone(), state.selection_mode), after_once);
    assert_eq!(state.current_endpoint, "B");
}

#[test]
fn switch_reports_both_latencies() {
    let mut state = ProxyState::new(make_config(&["A", "B"]), 500);
    state.endpoint_status[0] = EndpointStatus::new_available("A".to_string(), 120, 600);
    state.endpoint_status[1] = EndpointStatus::new_available("B".to_string(), 60, 600);
    assert_eq!(state.switch_endpoint("B".to_string()), Some((120, 60)));
    // An unknown target reports the failure sentinel.
    assert_eq!(state.switch_endpoint("Z".to_string()), Some((60, 999_999)));
}

#[test]
fn mark_failed_keeps_latency_and_sets_error() {
    let mut state = ProxyState::new(make_config(&["A", "B"]), 500);
    state.endpoint_status[0] = EndpointStatus::new_available("A".to_string(), 120, 600);
    state.mark_failed(&"A".to_string(), "HTTP error: connect refused".to_string(), 700);
    let st = &state.endpoint_status[0];
    assert!(!st.available);
    assert_eq!(st.latency, 120);
    assert_eq!(st.error, Some("HTTP error: connect refused".to_string()));
    assert_eq!(st.last_check_ms, 700);
    // Unknown urls are ignored.
    state.mark_failed(&"Z".to_string(), "x".to_string(), 800);
    assert_eq!(state.endpoint_status.len(), 2);
}

#[test]
fn manager_counts_switches_and_versions() {
    let mut m = ProxyStateManager::new(make_config(&["A", "B"]), 100);
    assert_eq!(m.get_current_endpoint(), "A");
    let stats = m.get_state_stats();
    assert_eq!(stats.state_version, 1);
    assert_eq!(stats.switch_count, 0);
    assert_eq!(stats.total_endpoints, 2);

    m.apply_transition(
        ProxyStateTransition::EndpointSwitched {
            from: "A".to_string(),
            to: "B".to_string(),
            reason: SwitchReason::ManualSwitch,
        },
        200,
    );
    assert_eq!(m.get_current_endpoint(), "B");
    let stats = m.get_state_stats();
    assert_eq!(stats.switch_count, 1);
    assert_eq!(stats.state_version, 2);
    assert_eq!(stats.last_switch_time_ms, 200);

    // Switching to the endpoint already current changes nothing.
    m.switch_endpoint_atomic("B".to_string(), 300);
    let stats = m.get_state_stats();
    assert_eq!(stats.switch_count, 1);
    assert_eq!(stats.state_version, 2);
}

#[test]
fn manager_updates_and_reads_statuses() {
    let mut m = ProxyStateManager::new(make_config(&["A", "B"]), 100);
    let fresh = EndpointStatus::new_available("A".to_string(), 80, 150);
    m.update_endpoint_health("A".to_string(), fresh);
    let read = m.get_endpoint_status(&"A".to_string()).unwrap();
    assert!(read.available);
    assert_eq!(read.latency, 80);
    assert!(m.get_endpoint_status(&"Z".to_string()).is_none());
    assert_eq!(m.get_all_endpoint_status().len(), 2);
    assert_eq!(m.get_state_stats().state_version, 2);
}

#[test]
fn should_switch_follows_the_decision_table() {
    let mut m = ProxyStateManager::new(make_config(&["A", "B"]), 100);
    // Same endpoint: never.
    assert!(m.should_switch_endpoint(&"A".to_string(), 10).is_none());
    // Current unavailable (fresh state): failover.
    let d = m.should_switch_endpoint(&"B".to_string(), 300).unwrap();
    assert_eq!(d.reason, SwitchReason::FailoverRecovery);
    assert_eq!(d.from, "A");
    assert_eq!(d.to, "B");
    assert_eq!(d.improvement_ms, 999_999 - 300);
    // Current healthy at 120: only a 50 ms improvement switches.
    m.update_endpoint_health(
        "A".to_string(),
        EndpointStatus::new_available("A".to_string(), 120, 150),
    );
    let d = m.should_switch_endpoint(&"B".to_string(), 60).unwrap();
    assert_eq!(
        d.reason,
        SwitchReason::LatencyImprovement { improvement_ms: 60 }
    );
    assert!(m.should_switch_endpoint(&"B".to_string(), 100).is_none());
}

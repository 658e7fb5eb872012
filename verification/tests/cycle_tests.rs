//! Health-cycle scenarios: initial pickup, latency-based switching, failover,
//! and manual override.

use zephyr_proxy::config::{
    Config, Group, HealthCheckConfig, LoggingConfig, RetryConfig, ServerConfig, SimpleEndpoint,
    UiConfig,
};
use zephyr_proxy::events::{ProxyEvent, SelectionMode};
use zephyr_proxy::i18n::Language;
use zephyr_proxy::load::LoadLevel;
use zephyr_proxy::orchestrator::{run_cycle, OrchestratorCore, ProbeResult};
use zephyr_proxy::state::ProxyState;

fn make_config(urls: &[&str], threshold: u64) -> Config {
    Config {
        server: ServerConfig {
            port: 8080,
            switch_threshold_ms: threshold,
            graceful_switch_timeout_ms: 30000,
        },
        groups: vec![Group {
            name: "main".to_string(),
            auth_token_env: "MAIN_TOKEN".to_string(),
            auth_token: Some("tok".to_string()),
            endpoints: urls
                .iter()
                .map(|u| SimpleEndpoint {
                    url: u.to_string(),
                    name: format!("name-{u}"),
                })
                .collect(),
            default: None,
            health_check: None,
        }],
        health_check: HealthCheckConfig {
            interval_seconds: 30,
            min_interval_seconds: Some(5),
            max_interval_seconds: Some(300),
            dynamic_scaling: false,
            timeout_seconds: 10,
            probe_binary_path: "probe".to_string(),
        },
        retry: RetryConfig::default(),
        logging: LoggingConfig::default(),
        ui: UiConfig {
            language: Language::En,
        },
    }
}

fn ok_result(url: &str, latency: u64) -> ProbeResult {
    ProbeResult {
        endpoint: url.to_string(),
        latency: Some(latency),
        error: None,
    }
}

fn err_result(url: &str, message: &str) -> ProbeResult {
    ProbeResult {
        endpoint: url.to_string(),
        latency: None,
        error: Some(message.to_string()),
    }
}

#[test]
fn initial_pickup_switches_to_first_available() {
    let config = make_config(&["A", "B", "C"], 50);
    let mut state = ProxyState::new(config, 1000);
    state.current_endpoint = String::new();
    let mut core = OrchestratorCore::new();
    let results = vec![ok_result("B", 80)];
    let events = run_cycle(&mut core, &mut state, &results, 30, LoadLevel::Idle, 0, 2000, 5);
    assert_eq!(state.current_endpoint, "B");
    let switch = events
        .iter()
        .find(|e| matches!(e, ProxyEvent::EndpointSwitch { .. }))
        .expect("a switch event");
    assert_eq!(
        *switch,
        ProxyEvent::EndpointSwitch {
            from: String::new(),
            to: "B".to_string(),
            from_latency: 999_999,
            to_latency: 80,
        }
    );
}

#[test]
fn latency_improvement_switches_when_threshold_reached() {
    let config = make_config(&["A", "B", "C"], 50);
    let mut state = ProxyState::new(config, 1000);
    let mut core = OrchestratorCore::new();
    // First cycle measures the current endpoint A at 120 ms; A stays current.
    let warmup = vec![ok_result("A", 120)];
    let _ = run_cycle(&mut core, &mut state, &warmup, 30, LoadLevel::Idle, 0, 2000, 5);
    assert_eq!(state.current_endpoint, "A");
    // The next cycle finds C at 60 ms first: an improvement of 60 >= 50.
    let results = vec![ok_result("C", 60)];
    let events = run_cycle(&mut core, &mut state, &results, 30, LoadLevel::Idle, 0, 3000, 5);
    assert_eq!(state.current_endpoint, "C");
    let switch = events
        .iter()
        .find(|e| matches!(e, ProxyEvent::EndpointSwitch { .. }))
        .expect("a switch event");
    assert_eq!(
        *switch,
        ProxyEvent::EndpointSwitch {
            from: "A".to_string(),
            to: "C".to_string(),
            from_latency: 120,
            to_latency: 60,
        }
    );
}

#[test]
fn small_improvement_does_not_switch() {
    let config = make_config(&["A", "B"], 50);
    let mut state = ProxyState::new(config, 1000);
    let mut core = OrchestratorCore::new();
    // The current endpoint answers first and wins the race; its own result
    // warrants no switch, and the better-but-late endpoint cannot win.
    let results = vec![ok_result("A", 100), ok_result("B", 60)];
    let events = run_cycle(&mut core, &mut state, &results, 30, LoadLevel::Idle, 0, 2000, 5);
    assert_eq!(state.current_endpoint, "A");
    assert!(!events
        .iter()
        .any(|e| matches!(e, ProxyEvent::EndpointSwitch { .. })));
    // Evaluated directly against a settled state, an improvement below the
    // threshold proposes nothing.
    let candidate = zephyr_proxy::health::EndpointStatus::new_available("B".to_string(), 60, 3000);
    assert!(zephyr_proxy::orchestrator::calculate_switch_decision(&state, &candidate).is_none());
    let faster = zephyr_proxy::health::EndpointStatus::new_available("B".to_string(), 50, 3000);
    assert_eq!(
        zephyr_proxy::orchestrator::calculate_switch_decision(&state, &faster),
        Some((100, 50))
    );
}

#[test]
fn failover_switches_regardless_of_threshold() {
    let config = make_config(&["A", "B", "C"], 1_000_000);
    let mut state = ProxyState::new(config, 1000);
    let mut core = OrchestratorCore::new();
    let warmup = vec![ok_result("A", 100)];
    let _ = run_cycle(&mut core, &mut state, &warmup, 30, LoadLevel::Idle, 0, 2000, 5);
    assert_eq!(state.current_endpoint, "A");
    // A fails its probe; B answers at 300 ms first and wins the race.
    let results = vec![err_result("A", "connection refused"), ok_result("B", 300)];
    let events = run_cycle(&mut core, &mut state, &results, 30, LoadLevel::Idle, 0, 3000, 5);
    assert_eq!(state.current_endpoint, "B");
    let switch = events
        .iter()
        .find(|e| matches!(e, ProxyEvent::EndpointSwitch { .. }))
        .expect("a switch event");
    assert_eq!(
        *switch,
        ProxyEvent::EndpointSwitch {
            from: "A".to_string(),
            to: "B".to_string(),
            from_latency: 999_999,
            to_latency: 300,
        }
    );
}

#[test]
fn manual_mode_never_switches() {
    let config = make_config(&["A", "B", "C", "D"], 50);
    let mut state = ProxyState::new(config, 1000);
    state.selection_mode = SelectionMode::Manual;
    state.current_endpoint = "D".to_string();
    let mut core = OrchestratorCore::new();
    let results = vec![ok_result("A", 40)];
    let events = run_cycle(&mut core, &mut state, &results, 30, LoadLevel::Idle, 0, 2000, 5);
    assert_eq!(state.current_endpoint, "D");
    assert!(!events
        .iter()
        .any(|e| matches!(e, ProxyEvent::EndpointSwitch { .. })));
    assert!(events
        .iter()
        .any(|e| matches!(e, ProxyEvent::HealthUpdate(st) if st.endpoint == "A" && st.available)));
}

#[test]
fn cycle_events_are_ordered() {
    let config = make_config(&["A", "B"], 50);
    let mut state = ProxyState::new(config, 1000);
    let mut core = OrchestratorCore::new();
    let results = vec![ok_result("A", 10), ok_result("B", 20)];
    let events = run_cycle(&mut core, &mut state, &results, 30, LoadLevel::Low, 2, 2000, 7);
    assert!(matches!(
        events[0],
        ProxyEvent::HealthCheckStarted {
            interval_secs: 30,
            next_check_time_ms: 32_000,
            load_level: LoadLevel::Low,
            active_connections: 2,
        }
    ));
    // Two checking updates, then the running marker.
    assert!(matches!(events[1], ProxyEvent::HealthUpdate(_)));
    assert!(matches!(events[2], ProxyEvent::HealthUpdate(_)));
    assert!(matches!(
        events[3],
        ProxyEvent::HealthCheckRunning {
            started_at_ms: 2000,
            estimated_duration_secs: 15,
        }
    ));
    assert!(matches!(
        events.last().unwrap(),
        ProxyEvent::HealthCheckCompleted { duration_ms: 7 }
    ));
    // Every health update lies strictly between start and completion.
    for (i, e) in events.iter().enumerate() {
        if matches!(e, ProxyEvent::HealthUpdate(_)) {
            assert!(i > 0 && i < events.len() - 1);
        }
    }
}

#[test]
fn pause_resume_and_manual_refresh_emit_their_events() {
    let mut core = OrchestratorCore::new();
    assert!(!core.paused);
    let paused = core.handle_pause();
    assert_eq!(paused, vec![ProxyEvent::SystemPaused]);
    assert!(core.paused);
    let refreshed = core.handle_manual_refresh();
    assert_eq!(refreshed, vec![ProxyEvent::ManualRefreshTriggered]);
    assert!(core.paused);
    let resumed = core.handle_resume();
    assert_eq!(resumed, vec![ProxyEvent::SystemResumed]);
    assert!(!core.paused);
}

#[test]
fn checking_statuses_clear_availability_but_keep_latency() {
    let config = make_config(&["A"], 50);
    let mut state = ProxyState::new(config, 1000);
    let mut core = OrchestratorCore::new();
    let warmup = vec![ok_result("A", 90)];
    let _ = run_cycle(&mut core, &mut state, &warmup, 30, LoadLevel::Idle, 0, 2000, 5);
    assert!(state.endpoint_status[0].available);
    let marks = zephyr_proxy::orchestrator::mark_endpoints_as_checking(&mut state);
    assert_eq!(marks.len(), 1);
    assert!(!state.endpoint_status[0].available);
    assert_eq!(state.endpoint_status[0].error, None);
    assert_eq!(state.endpoint_status[0].latency, 90);
}

//! Retry policy, cross-endpoint fallback, and the request lifecycle.

use zephyr_proxy::config::{RetryConfig, SimpleEndpoint};
use zephyr_proxy::events::{ConnectionStatus, ProxyEvent};
use zephyr_proxy::health::EndpointStatus;
use zephyr_proxy::pipeline::{
    bearer_header_value, begin_request, build_fallback_order, build_target_uri, finish_request,
    host_of_url, BodyReadResult, ClientReply, ForwardOutcome,
};
use zephyr_proxy::retry::{
    calculate_backoff_delay, classify_error, next_attempt_decision, AttemptDecision,
    AttemptOutcome, RetryableError,
};
use zephyr_proxy::tracker::ConnectionTracker;

fn retry_config(enabled: bool, max_attempts: u32) -> RetryConfig {
    RetryConfig {
        enabled,
        max_attempts,
        base_delay_ms: 100,
        backoff_multiplier_percent: 200,
    }
}

#[test]
fn backoff_doubles_per_attempt() {
    assert_eq!(calculate_backoff_delay(1, 100, 200), 100);
    assert_eq!(calculate_backoff_delay(2, 100, 200), 200);
    assert_eq!(calculate_backoff_delay(3, 100, 200), 400);
    // A multiplier of 150 percent grows by halves, truncating.
    assert_eq!(calculate_backoff_delay(3, 100, 150), 225);
}

#[test]
fn transport_errors_retry_until_attempts_run_out() {
    let config = retry_config(true, 3);
    let failed = AttemptOutcome::Failed(RetryableError::Timeout);
    assert_eq!(
        next_attempt_decision(&config, 1, &failed),
        AttemptDecision::RetryAfter { delay_ms: 100 }
    );
    assert_eq!(
        next_attempt_decision(&config, 2, &failed),
        AttemptDecision::RetryAfter { delay_ms: 200 }
    );
    assert_eq!(
        next_attempt_decision(&config, 3, &failed),
        AttemptDecision::FailEndpoint
    );
}

#[test]
fn server_errors_retry_but_are_delivered_at_the_end() {
    let config = retry_config(true, 2);
    let server_error = AttemptOutcome::Response { status: 503 };
    assert_eq!(
        next_attempt_decision(&config, 1, &server_error),
        AttemptDecision::RetryAfter { delay_ms: 100 }
    );
    assert_eq!(
        next_attempt_decision(&config, 2, &server_error),
        AttemptDecision::Deliver
    );
}

#[test]
fn client_errors_are_delivered_unchanged() {
    let config = retry_config(true, 3);
    assert_eq!(
        next_attempt_decision(&config, 1, &AttemptOutcome::Response { status: 404 }),
        AttemptDecision::Deliver
    );
    assert_eq!(
        next_attempt_decision(&config, 1, &AttemptOutcome::Response { status: 200 }),
        AttemptDecision::Deliver
    );
}

#[test]
fn single_attempt_disables_retry_even_when_enabled() {
    let config = retry_config(true, 1);
    assert_eq!(
        next_attempt_decision(&config, 1, &AttemptOutcome::Failed(RetryableError::Timeout)),
        AttemptDecision::FailEndpoint
    );
    assert_eq!(
        next_attempt_decision(&config, 1, &AttemptOutcome::Response { status: 500 }),
        AttemptDecision::Deliver
    );
    let disabled = retry_config(false, 3);
    assert_eq!(
        next_attempt_decision(&disabled, 1, &AttemptOutcome::Failed(RetryableError::Timeout)),
        AttemptDecision::FailEndpoint
    );
}

#[test]
fn error_classification_keeps_timeouts_apart() {
    assert_eq!(classify_error(true, "x".to_string()), RetryableError::Timeout);
    assert_eq!(
        classify_error(false, "connection reset".to_string()),
        RetryableError::ConnectionError("connection reset".to_string())
    );
}

#[test]
fn fallback_tries_available_endpoints_before_the_rest() {
    let entries = vec![
        ("t1".to_string(), ep("A"), "g".to_string()),
        ("t2".to_string(), ep("B"), "g".to_string()),
        ("t3".to_string(), ep("C"), "g".to_string()),
        ("t4".to_string(), ep("D"), "g".to_string()),
    ];
    let statuses = vec![
        EndpointStatus::new_unavailable("A".to_string(), "down".to_string(), 0),
        EndpointStatus::new_unavailable("B".to_string(), "down".to_string(), 0),
        EndpointStatus::new_available("C".to_string(), 40, 0),
        EndpointStatus::new_available("D".to_string(), 80, 0),
    ];
    let order = build_fallback_order(&entries, &statuses, &"A".to_string());
    assert_eq!(
        order,
        vec![
            ("C".to_string(), "t3".to_string()),
            ("D".to_string(), "t4".to_string()),
            ("B".to_string(), "t2".to_string()),
        ]
    );
}

fn ep(url: &str) -> SimpleEndpoint {
    SimpleEndpoint {
        url: url.to_string(),
        name: format!("name-{url}"),
    }
}

#[test]
fn request_lifecycle_emits_exactly_one_start_and_one_completion() {
    let mut tracker = ConnectionTracker::new();
    let begin_events = begin_request(&mut tracker, "c1".to_string(), "A".to_string(), 1000);
    assert_eq!(begin_events.len(), 2);
    assert!(matches!(&begin_events[0], ProxyEvent::ConnectionStarted(c) if c.id == "c1"));
    assert!(matches!(&begin_events[1], ProxyEvent::RequestReceived { endpoint, timestamp_ms: 1000 } if endpoint == "A"));
    assert_eq!(tracker.get_active_connections()[0].status, ConnectionStatus::Processing);

    let outcome = ForwardOutcome::PrimaryDelivered {
        body: BodyReadResult::Finished,
    };
    let (reply, finish_events) = finish_request(&mut tracker, &"c1".to_string(), &outcome, 2000);
    assert_eq!(reply, ClientReply::Forward);
    assert_eq!(
        finish_events,
        vec![ProxyEvent::ConnectionCompleted("c1".to_string())]
    );
    assert_eq!(tracker.get_active_count(), 0);
    assert_eq!(tracker.get_completed_count(), 1);

    let started = begin_events
        .iter()
        .chain(finish_events.iter())
        .filter(|e| matches!(e, ProxyEvent::ConnectionStarted(_)))
        .count();
    let completed = begin_events
        .iter()
        .chain(finish_events.iter())
        .filter(|e| matches!(e, ProxyEvent::ConnectionCompleted(_)))
        .count();
    assert_eq!(started, 1);
    assert_eq!(completed, 1);
}

#[test]
fn failure_outcomes_map_to_their_status_codes() {
    let mut tracker = ConnectionTracker::new();
    let _ = begin_request(&mut tracker, "c1".to_string(), "A".to_string(), 0);
    let (reply, _) = finish_request(
        &mut tracker,
        &"c1".to_string(),
        &ForwardOutcome::PrimaryDelivered {
            body: BodyReadResult::ReadError,
        },
        10,
    );
    assert_eq!(
        reply,
        ClientReply::Error {
            status: 502,
            body: "Body consumption error".to_string(),
        }
    );
    let _ = begin_request(&mut tracker, "c2".to_string(), "A".to_string(), 0);
    let (reply, _) = finish_request(
        &mut tracker,
        &"c2".to_string(),
        &ForwardOutcome::PrimaryDelivered {
            body: BodyReadResult::TimedOut,
        },
        10,
    );
    assert_eq!(
        reply,
        ClientReply::Error {
            status: 504,
            body: "Body consumption timeout".to_string(),
        }
    );
    let _ = begin_request(&mut tracker, "c3".to_string(), "A".to_string(), 0);
    let (reply, _) = finish_request(
        &mut tracker,
        &"c3".to_string(),
        &ForwardOutcome::FallbackDelivered {
            body: BodyReadResult::ReadError,
        },
        10,
    );
    assert_eq!(
        reply,
        ClientReply::Error {
            status: 502,
            body: "Fallback body consumption error".to_string(),
        }
    );
    let _ = begin_request(&mut tracker, "c4".to_string(), "A".to_string(), 0);
    let (reply, _) = finish_request(
        &mut tracker,
        &"c4".to_string(),
        &ForwardOutcome::AllEndpointsFailed,
        10,
    );
    assert_eq!(
        reply,
        ClientReply::Error {
            status: 503,
            body: "All endpoints unavailable".to_string(),
        }
    );
    let _ = begin_request(&mut tracker, "c5".to_string(), "A".to_string(), 0);
    let (reply, _) = finish_request(&mut tracker, &"c5".to_string(), &ForwardOutcome::FinalError, 10);
    assert_eq!(
        reply,
        ClientReply::Error {
            status: 502,
            body: "Request failed".to_string(),
        }
    );
}

#[test]
fn unknown_connection_completes_nothing() {
    let mut tracker = ConnectionTracker::new();
    let (reply, events) = finish_request(
        &mut tracker,
        &"ghostly".to_string(),
        &ForwardOutcome::FinalError,
        10,
    );
    assert!(events.is_empty());
    assert!(matches!(reply, ClientReply::Error { status: 502, .. }));
    assert_eq!(tracker.get_completed_count(), 0);
}

#[test]
fn request_rewriting_builds_uri_host_and_authorization() {
    assert_eq!(
        build_target_uri(&"https://api.example.com".to_string(), "/v1/messages?x=1"),
        "https://api.example.com/v1/messages?x=1"
    );
    assert_eq!(host_of_url(&"https://api.example.com".to_string()), "api.example.com");
    assert_eq!(host_of_url(&"http://localhost:9".to_string()), "localhost:9");
    assert_eq!(host_of_url(&"example.org".to_string()), "example.org");
    assert_eq!(
        bearer_header_value(&"secret".to_string()),
        Some("Bearer secret".to_string())
    );
    assert_eq!(bearer_header_value(&String::new()), None);
}

#[test]
fn cross_endpoint_fallback_scenario() {
    // Current endpoint A; retry allows three attempts with delays doubling
    // from 100 ms. All three fail, A is marked unavailable, and the fallback
    // order offers the available B first; serving from B silently moves
    // traffic there.
    let config = retry_config(true, 3);
    let timeout = AttemptOutcome::Failed(RetryableError::Timeout);
    assert_eq!(
        next_attempt_decision(&config, 1, &timeout),
        AttemptDecision::RetryAfter { delay_ms: 100 }
    );
    assert_eq!(
        next_attempt_decision(&config, 2, &timeout),
        AttemptDecision::RetryAfter { delay_ms: 200 }
    );
    assert_eq!(
        next_attempt_decision(&config, 3, &timeout),
        AttemptDecision::FailEndpoint
    );

    let mut state = zephyr_proxy::state::ProxyState {
        config: scenario_config(),
        endpoint_status: vec![
            EndpointStatus::new_available("A".to_string(), 100, 0),
            EndpointStatus::new_available("B".to_string(), 200, 0),
        ],
        current_endpoint: "A".to_string(),
        selection_mode: zephyr_proxy::events::SelectionMode::Auto,
    };
    state.mark_failed(&"A".to_string(), "HTTP error: timed out".to_string(), 10);
    assert!(!state.endpoint_status[0].available);

    let entries = state.config.get_all_endpoints();
    let order = build_fallback_order(&entries, &state.endpoint_status, &"A".to_string());
    assert_eq!(order[0].0, "B");

    let mut tracker = ConnectionTracker::new();
    let _ = begin_request(&mut tracker, "c1".to_string(), "A".to_string(), 0);
    state.switch_endpoint_silent(order[0].0.clone());
    assert_eq!(state.current_endpoint, "B");
    let (reply, events) = finish_request(
        &mut tracker,
        &"c1".to_string(),
        &ForwardOutcome::FallbackDelivered {
            body: BodyReadResult::Finished,
        },
        50,
    );
    assert_eq!(reply, ClientReply::Forward);
    assert_eq!(events.len(), 1);
}

fn scenario_config() -> zephyr_proxy::config::Config {
    zephyr_proxy::config::Config {
        server: zephyr_proxy::config::ServerConfig {
            port: 8080,
            switch_threshold_ms: 50,
            graceful_switch_timeout_ms: 30000,
        },
        groups: vec![zephyr_proxy::config::Group {
            name: "main".to_string(),
            auth_token_env: "MAIN_TOKEN".to_string(),
            auth_token: Some("tok".to_string()),
            endpoints: vec![ep("A"), ep("B")],
            default: None,
            health_check: None,
        }],
        health_check: zephyr_proxy::config::HealthCheckConfig {
            interval_seconds: 30,
            min_interval_seconds: None,
            max_interval_seconds: None,
            dynamic_scaling: false,
            timeout_seconds: 10,
            probe_binary_path: "probe".to_string(),
        },
        retry: zephyr_proxy::config::RetryConfig::default(),
        logging: zephyr_proxy::config::LoggingConfig::default(),
        ui: zephyr_proxy::config::UiConfig {
            language: zephyr_proxy::i18n::Language::En,
        },
    }
}

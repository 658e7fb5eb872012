//! Load classification and the dynamic interval scheduler.

use zephyr_proxy::config::{
    Config, Group, HealthCheckConfig, LoggingConfig, RetryConfig, ServerConfig, SimpleEndpoint,
    UiConfig,
};
use zephyr_proxy::i18n::Language;
use zephyr_proxy::load::{classify_load, DynamicHealthChecker, LoadLevel, LoadMetrics};

fn scaling_config(base: u64, min: u64, max: u64, enabled: bool) -> Config {
    Config {
        server: ServerConfig {
            port: 8080,
            switch_threshold_ms: 50,
            graceful_switch_timeout_ms: 30000,
        },
        groups: vec![Group {
            name: "main".to_string(),
            auth_token_env: "MAIN_TOKEN".to_string(),
            auth_token: Some("tok".to_string()),
            endpoints: vec![SimpleEndpoint {
                url: "A".to_string(),
                name: "a".to_string(),
            }],
            default: None,
            health_check: None,
        }],
        health_check: HealthCheckConfig {
            interval_seconds: base,
            min_interval_seconds: Some(min),
            max_interval_seconds: Some(max),
            dynamic_scaling: enabled,
            timeout_seconds: 1,
            probe_binary_path: "probe".to_string(),
        },
        retry: RetryConfig::default(),
        logging: LoggingConfig::default(),
        ui: UiConfig {
            language: Language::En,
        },
    }
}

#[test]
fn ten_connections_are_medium_eleven_are_high() {
    assert_eq!(classify_load(10, 0), LoadLevel::Medium);
    assert_eq!(classify_load(11, 0), LoadLevel::High);
}

#[test]
fn classifier_first_match_wins() {
    assert_eq!(classify_load(0, 31), LoadLevel::High);
    assert_eq!(classify_load(0, 30), LoadLevel::Medium);
    assert_eq!(classify_load(4, 0), LoadLevel::Medium);
    assert_eq!(classify_load(3, 9), LoadLevel::Low);
    assert_eq!(classify_load(0, 10), LoadLevel::Medium);
    assert_eq!(classify_load(1, 0), LoadLevel::Low);
    assert_eq!(classify_load(0, 2), LoadLevel::Low);
    assert_eq!(classify_load(0, 1), LoadLevel::Idle);
    assert_eq!(classify_load(0, 0), LoadLevel::Idle);
}

#[test]
fn idle_sixty_seconds_keeps_base_sixty_one_stretches() {
    let config = scaling_config(480, 1, 100_000, true);
    let mut checker = DynamicHealthChecker::new(&config, 0);
    // Exactly sixty idle seconds: factor one, the base interval.
    assert_eq!(checker.calculate_interval(0, 60_000), 480);
    // Sixty-one idle seconds: the first linear segment begins.
    assert_eq!(checker.calculate_interval(0, 61_000), 481);
}

#[test]
fn idle_segments_scale_progressively() {
    let config = scaling_config(480, 1, 100_000, true);
    let mut checker = DynamicHealthChecker::new(&config, 0);
    // Five idle minutes: factor one and a half.
    assert_eq!(checker.calculate_interval(0, 300_000), 720);
    // Fifteen idle minutes: factor three.
    assert_eq!(checker.calculate_interval(0, 900_000), 1440);
    // Thirty idle minutes: factor eight.
    assert_eq!(checker.calculate_interval(0, 1_800_000), 3840);
}

#[test]
fn high_load_takes_the_minimum_interval() {
    let config = scaling_config(60, 7, 600, true);
    let mut checker = DynamicHealthChecker::new(&config, 0);
    assert_eq!(checker.calculate_interval(11, 1000), 7);
    assert_eq!(checker.get_load_level(), LoadLevel::High);
}

#[test]
fn medium_and_low_load_scale_the_base() {
    let config = scaling_config(60, 7, 600, true);
    let mut checker = DynamicHealthChecker::new(&config, 0);
    // Medium with a low request rate: factor 1.5.
    assert_eq!(checker.calculate_interval(4, 1000), 90);
    // Low with a low request rate: factor 2.5.
    assert_eq!(checker.calculate_interval(1, 2000), 150);
}

#[test]
fn medium_with_high_request_rate_scales_less() {
    let config = scaling_config(60, 7, 600, true);
    let mut checker = DynamicHealthChecker::new(&config, 0);
    let mut t: u64 = 0;
    while t < 6 {
        checker.record_request(1000 + t);
        t += 1;
    }
    // Six requests in the last minute: medium scales by 1.2 instead of 1.5.
    assert_eq!(checker.calculate_interval(4, 2000), 72);
}

#[test]
fn disabled_scaling_always_returns_base() {
    let config = scaling_config(60, 7, 600, false);
    let mut checker = DynamicHealthChecker::new(&config, 0);
    assert_eq!(checker.calculate_interval(11, 1000), 60);
    assert_eq!(checker.calculate_interval(0, 10_000_000), 60);
}

#[test]
fn interval_is_clamped_into_bounds() {
    let config = scaling_config(60, 80, 100, true);
    let mut checker = DynamicHealthChecker::new(&config, 0);
    // Idle at sixty seconds yields the base 60, clamped up to 80.
    assert_eq!(checker.calculate_interval(0, 60_000), 80);
    // Deep idle would stretch far past 100, clamped down.
    assert_eq!(checker.calculate_interval(0, 4_000_000), 100);
}

#[test]
fn metrics_trim_requests_older_than_five_minutes() {
    let mut m = LoadMetrics::new(0);
    m.record_request(1_000);
    m.record_request(200_000);
    m.record_request(350_000);
    m.update(0, 400_000);
    // The arrival at one second is gone; one arrival lies in the last minute.
    assert_eq!(m.get_request_rate(400_000), 1);
    assert_eq!(m.get_load_level(), LoadLevel::Idle);
}

#[test]
fn level_change_is_stamped() {
    let mut m = LoadMetrics::new(0);
    m.update(5, 10_000);
    assert_eq!(m.get_load_level(), LoadLevel::Medium);
    assert_eq!(m.get_last_change_ms(), 10_000);
    m.update(5, 20_000);
    // Unchanged level keeps the old stamp.
    assert_eq!(m.get_last_change_ms(), 10_000);
}

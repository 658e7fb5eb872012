//! Configuration validation: every rule and its boundary.

use zephyr_proxy::config::{
    default_backoff_multiplier_percent, default_base_delay_ms, default_max_attempts,
    default_switch_threshold, Config, ConfigError, ConfigScope, Group, HealthCheckConfig,
    LoggingConfig, RetryConfig, ServerConfig, SimpleEndpoint, UiConfig,
};
use zephyr_proxy::i18n::Language;

fn endpoint(url: &str, name: &str) -> SimpleEndpoint {
    SimpleEndpoint {
        url: url.to_string(),
        name: name.to_string(),
    }
}

fn group(name: &str, token: Option<&str>, endpoints: Vec<SimpleEndpoint>) -> Group {
    Group {
        name: name.to_string(),
        auth_token_env: format!("{}_TOKEN", name.to_uppercase()),
        auth_token: token.map(|t| t.to_string()),
        endpoints,
        default: None,
        health_check: None,
    }
}

fn health(interval: u64, timeout: u64) -> HealthCheckConfig {
    HealthCheckConfig {
        interval_seconds: interval,
        min_interval_seconds: None,
        max_interval_seconds: None,
        dynamic_scaling: false,
        timeout_seconds: timeout,
        probe_binary_path: "probe".to_string(),
    }
}

fn base_config() -> Config {
    Config {
        server: ServerConfig {
            port: 8080,
            switch_threshold_ms: default_switch_threshold(),
            graceful_switch_timeout_ms: 30_000,
        },
        groups: vec![group("main", Some("tok"), vec![endpoint("A", "a")])],
        health_check: health(30, 10),
        retry: RetryConfig::default(),
        logging: LoggingConfig::default(),
        ui: UiConfig {
            language: Language::En,
        },
    }
}

#[test]
fn valid_config_passes() {
    assert_eq!(base_config().validate(), Ok(()));
}

#[test]
fn timeout_one_below_interval_accepted_equal_rejected() {
    let mut c = base_config();
    c.health_check = health(30, 29);
    assert_eq!(c.validate(), Ok(()));
    c.health_check = health(30, 30);
    assert_eq!(
        c.validate(),
        Err(ConfigError::TimeoutNotBelowInterval {
            scope: ConfigScope::Global,
            timeout_seconds: 30,
            interval_seconds: 30,
        })
    );
}

#[test]
fn empty_groups_are_rejected() {
    let mut c = base_config();
    c.groups = Vec::new();
    assert_eq!(c.validate(), Err(ConfigError::NoGroups));
}

#[test]
fn group_without_endpoints_is_rejected() {
    let mut c = base_config();
    c.groups = vec![group("main", Some("tok"), Vec::new())];
    assert_eq!(
        c.validate(),
        Err(ConfigError::GroupWithoutEndpoints {
            group: "main".to_string(),
        })
    );
}

#[test]
fn blank_env_reference_is_rejected() {
    let mut c = base_config();
    c.groups[0].auth_token_env = "  ".to_string();
    assert_eq!(
        c.validate(),
        Err(ConfigError::MissingAuthTokenEnv {
            group: "main".to_string(),
        })
    );
}

#[test]
fn unset_env_variable_is_rejected() {
    let mut c = base_config();
    c.groups[0].auth_token = None;
    assert_eq!(
        c.validate(),
        Err(ConfigError::EnvVarNotSet {
            var: "MAIN_TOKEN".to_string(),
            group: "main".to_string(),
        })
    );
}

#[test]
fn placeholder_token_is_rejected() {
    let mut c = base_config();
    c.groups[0].auth_token = Some("xx your-auth-token-here yy".to_string());
    assert_eq!(
        c.validate(),
        Err(ConfigError::PlaceholderToken {
            var: "MAIN_TOKEN".to_string(),
        })
    );
}

#[test]
fn duplicate_endpoint_names_are_rejected_across_groups() {
    let mut c = base_config();
    c.groups = vec![
        group("main", Some("tok"), vec![endpoint("A", "shared")]),
        group("backup", Some("tok2"), vec![endpoint("B", "shared")]),
    ];
    assert_eq!(
        c.validate(),
        Err(ConfigError::DuplicateEndpointName {
            name: "shared".to_string(),
        })
    );
}

#[test]
fn zero_interval_and_timeout_are_rejected() {
    let mut c = base_config();
    c.health_check = health(0, 10);
    assert_eq!(
        c.validate(),
        Err(ConfigError::ZeroInterval {
            scope: ConfigScope::Global,
        })
    );
    c.health_check = health(30, 0);
    assert_eq!(
        c.validate(),
        Err(ConfigError::ZeroTimeout {
            scope: ConfigScope::Global,
        })
    );
}

#[test]
fn scaling_bounds_are_checked() {
    let mut c = base_config();
    c.health_check = HealthCheckConfig {
        interval_seconds: 30,
        min_interval_seconds: Some(0),
        max_interval_seconds: None,
        dynamic_scaling: true,
        timeout_seconds: 10,
        probe_binary_path: "probe".to_string(),
    };
    assert_eq!(
        c.validate(),
        Err(ConfigError::ZeroMinInterval {
            scope: ConfigScope::Global,
        })
    );
    c.health_check.min_interval_seconds = Some(40);
    assert_eq!(
        c.validate(),
        Err(ConfigError::MinIntervalAboveBase {
            scope: ConfigScope::Global,
            min_seconds: 40,
            interval_seconds: 30,
        })
    );
    c.health_check.min_interval_seconds = Some(10);
    assert_eq!(
        c.validate(),
        Err(ConfigError::TimeoutNotBelowMinInterval {
            scope: ConfigScope::Global,
            timeout_seconds: 10,
            min_seconds: 10,
        })
    );
    c.health_check.min_interval_seconds = Some(15);
    c.health_check.max_interval_seconds = Some(20);
    assert_eq!(
        c.validate(),
        Err(ConfigError::MaxIntervalBelowBase {
            scope: ConfigScope::Global,
            max_seconds: 20,
            interval_seconds: 30,
        })
    );
    c.health_check.max_interval_seconds = Some(300);
    assert_eq!(c.validate(), Ok(()));
}

#[test]
fn group_override_is_checked_with_its_scope() {
    let mut c = base_config();
    c.groups[0].health_check = Some(health(10, 10));
    assert_eq!(
        c.validate(),
        Err(ConfigError::TimeoutNotBelowInterval {
            scope: ConfigScope::Group {
                name: "main".to_string(),
            },
            timeout_seconds: 10,
            interval_seconds: 10,
        })
    );
}

#[test]
fn default_endpoint_comes_from_the_default_group() {
    let mut c = base_config();
    c.groups = vec![
        group("main", Some("tok1"), vec![endpoint("A", "a")]),
        Group {
            default: Some(true),
            ..group("backup", Some("tok2"), vec![endpoint("B", "b"), endpoint("C", "c")])
        },
    ];
    let (token, ep) = c.get_default_endpoint().unwrap();
    assert_eq!(token, "tok2");
    assert_eq!(ep.url, "B");
    assert_eq!(c.get_default_group().unwrap().name, "backup");
}

#[test]
fn all_endpoints_skip_groups_without_tokens() {
    let mut c = base_config();
    c.groups = vec![
        group("main", Some("tok1"), vec![endpoint("A", "a")]),
        group("broken", None, vec![endpoint("B", "b")]),
        group("backup", Some("tok2"), vec![endpoint("C", "c")]),
    ];
    let all = c.get_all_endpoints();
    assert_eq!(all.len(), 2);
    assert_eq!(all[0].0, "tok1");
    assert_eq!(all[0].1.url, "A");
    assert_eq!(all[0].2, "main");
    assert_eq!(all[1].1.url, "C");
    let legacy = c.get_all_endpoints_legacy();
    assert_eq!(legacy.len(), 2);
    assert_eq!(legacy[1].1.url, "C");
    assert_eq!(legacy[1].1.default, None);
}

#[test]
fn interval_getters_apply_defaults() {
    let mut c = base_config();
    assert_eq!(c.health_check_interval(), 30);
    assert_eq!(c.min_health_check_interval(), 30);
    assert_eq!(c.max_health_check_interval(), 3600);
    assert!(!c.is_dynamic_scaling_enabled());
    c.health_check.min_interval_seconds = Some(5);
    c.health_check.max_interval_seconds = Some(500);
    assert_eq!(c.min_health_check_interval(), 5);
    assert_eq!(c.max_health_check_interval(), 500);
}

#[test]
fn retry_defaults_match_the_documented_values() {
    let r = RetryConfig::default();
    assert!(r.enabled);
    assert_eq!(r.max_attempts, default_max_attempts());
    assert_eq!(r.base_delay_ms, default_base_delay_ms());
    assert_eq!(r.backoff_multiplier_percent, default_backoff_multiplier_percent());
}

#[test]
fn error_messages_carry_the_offending_values() {
    let e = ConfigError::TimeoutNotBelowInterval {
        scope: ConfigScope::Group {
            name: "main".to_string(),
        },
        timeout_seconds: 30,
        interval_seconds: 30,
    };
    assert_eq!(
        e.message(),
        "health check timeout (30s) should be less than interval (30s) for group 'main'"
    );
    assert_eq!(ConfigError::NoGroups.message(), "no endpoint groups configured");
    let e = ConfigError::EnvVarNotSet {
        var: "MAIN_TOKEN".to_string(),
        group: "main".to_string(),
    };
    assert_eq!(
        e.message(),
        "environment variable 'MAIN_TOKEN' for group 'main' is not set"
    );
}

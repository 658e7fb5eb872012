//! Localized texts, log-line formatting, and the secret filters.

use zephyr_proxy::i18n::{I18n, Language};
use zephyr_proxy::logging::{
    filter_sensitive_body, filter_sensitive_headers, log_config_loaded, log_endpoint_switch,
    log_health_failed, log_health_start, log_health_success, log_proxy_error, log_proxy_request,
    log_proxy_request_detailed, log_proxy_response_detailed, log_retry_attempt, log_retry_delay,
    log_retry_exhausted, log_retry_success, log_server_start,
};
use zephyr_proxy::config::DetailLevel;

#[test]
fn language_parsing_is_case_insensitive() {
    assert_eq!(Language::from_str("zh"), Language::Zh);
    assert_eq!(Language::from_str("ZH"), Language::Zh);
    assert_eq!(Language::from_str("Chinese"), Language::Zh);
    assert_eq!(Language::from_str("中文"), Language::Zh);
    assert_eq!(Language::from_str("en"), Language::En);
    assert_eq!(Language::from_str("anything"), Language::En);
    assert_eq!(Language::default(), Language::En);
}

#[test]
fn texts_follow_the_language() {
    let en = I18n::new(Language::En);
    let zh = I18n::new(Language::Zh);
    assert_eq!(en.app_title(), "⚡ Zephyr - Auto Endpoint Switching");
    assert_eq!(zh.app_title(), "⚡ Zephyr - 自动端点切换");
    assert_eq!(en.btn_pause(), "[P] Pause");
    assert_eq!(zh.btn_resume(), "[P] 恢复");
    assert_eq!(en.status_available(), "✓");
    assert_eq!(zh.status_error(), "✗");
    assert_eq!(en.load_idle(), "Idle");
    assert_eq!(zh.error_timeout(), "超时");
}

#[test]
fn numbered_texts_render_their_numbers() {
    let en = I18n::new(Language::En);
    assert_eq!(en.mode_manual_indexed(0), "🎯Manual[1]");
    assert_eq!(en.health_next(42), "Next: 42s");
    assert_eq!(en.health_checking_with_time(7), "Checking... (7s left)");
    assert_eq!(en.load_high(12), "High Load: 12");
    let zh = I18n::new(Language::Zh);
    assert_eq!(zh.mode_manual_indexed(2), "🎯手动[3]");
    assert_eq!(zh.load_medium(5), "中负载: 5");
}

#[test]
fn log_lines_carry_their_arguments() {
    assert_eq!(
        log_health_start(&"https://a".to_string()),
        "🏥 Health check starting: https://a"
    );
    assert_eq!(
        log_health_success(&"https://a".to_string(), 83),
        "🏥 ✅ Endpoint healthy: https://a (83ms)"
    );
    assert_eq!(
        log_health_failed(&"https://a".to_string(), &"down".to_string()),
        "🏥 ❌ Endpoint failed: https://a - down"
    );
    assert_eq!(log_proxy_request(&"https://a".to_string()), "🔄 Request → https://a");
    assert_eq!(
        log_proxy_error(&"https://a".to_string(), &"oops".to_string()),
        "🔄 ❌ Request failed: https://a - oops"
    );
    assert_eq!(log_config_loaded(4), "⚙️ Configuration loaded: 4 endpoints");
}

#[test]
fn retry_lines_carry_attempts_and_delays() {
    assert_eq!(
        log_retry_attempt(&"a".to_string(), 2, 3, &"Server error 503".to_string()),
        "🔁 Retry attempt 2/3 for a: Server error 503"
    );
    assert_eq!(
        log_retry_success(&"a".to_string(), 3, 300),
        "🔁 ✅ Retry succeeded for a on attempt 3 (total delay: 300ms)"
    );
    assert_eq!(
        log_retry_exhausted(&"a".to_string(), 3, &"timeout".to_string()),
        "🔁 ❌ All 3 retry attempts exhausted for a: timeout"
    );
    assert_eq!(
        log_retry_delay(&"a".to_string(), 2, 200),
        "🔁 Waiting 200ms before retry attempt 2 for a"
    );
}

#[test]
fn switch_announcement_shows_the_improvement() {
    let lines = log_endpoint_switch(&"A".to_string(), &"B".to_string(), 120, 45);
    assert_eq!(lines.len(), 3);
    assert_eq!(lines[0], "🔀 ⚡ SWITCHING ENDPOINT ⚡");
    assert_eq!(lines[1], "🔀 From: A (120ms) → To: B (45ms)");
    assert_eq!(lines[2], "🔀 ╰─ Performance improvement: 75ms");
}

#[test]
fn server_banner_names_the_port() {
    let lines = log_server_start(8080);
    assert_eq!(lines.len(), 6);
    assert_eq!(lines[2], "🚀 ⚡ Server: http://localhost:8080");
    assert_eq!(lines[3], "🚀 📊 Status: http://localhost:8080/status");
    assert_eq!(lines[4], "🚀 🔍 Health: http://localhost:8080/health");
}

#[test]
fn sensitive_headers_are_filtered_case_insensitively() {
    let headers = vec![
        ("Authorization".to_string(), "Bearer SECRET-REDACTED".to_string()),
        ("content-type".to_string(), "application/json".to_string()),
        ("X-API-Key".to_string(), "SECRET-REDACTED".to_string()),
    ];
    let filtered = filter_sensitive_headers(&headers);
    assert_eq!(filtered[0].1, "[FILTERED]");
    assert_eq!(filtered[1].1, "application/json");
    assert_eq!(filtered[2].1, "[FILTERED]");
    assert_eq!(filtered[0].0, "Authorization");
}

#[test]
fn body_filter_censors_lines_with_secrets() {
    let body = b"hello\napi token here\nsk-12345\nworld".to_vec();
    assert_eq!(
        filter_sensitive_body(&body, 4096),
        "hello\n[SENSITIVE_DATA_FILTERED]\n[SENSITIVE_DATA_FILTERED]\nworld"
    );
}

#[test]
fn body_filter_strips_stray_control_characters() {
    let body = b"he\x01llo\tworld\r".to_vec();
    assert_eq!(filter_sensitive_body(&body, 4096), "hello\tworld");
}

#[test]
fn body_filter_summarizes_oversize_and_binary_bodies() {
    let body = vec![b'a'; 10];
    assert_eq!(filter_sensitive_body(&body, 5), "[TRUNCATED 10 bytes]");
    let binary = vec![0xff, 0xfe, 0x00];
    assert_eq!(filter_sensitive_body(&binary, 4096), "[BINARY_DATA]");
}

#[test]
fn detailed_request_log_varies_with_the_level() {
    let endpoint = "https://a".to_string();
    let method = "POST".to_string();
    let path = "/v1/messages".to_string();
    let id = "conn_1_2".to_string();
    let headers = vec![("authorization".to_string(), "Bearer SECRET-REDACTED".to_string())];
    let body = b"sk-123".to_vec();

    let basic = log_proxy_request_detailed(
        &endpoint, &method, &path, &id, None, None, &DetailLevel::Basic,
    );
    assert_eq!(basic, vec!["🔄 Request → https://a".to_string()]);

    let standard = log_proxy_request_detailed(
        &endpoint, &method, &path, &id, None, None, &DetailLevel::Standard,
    );
    assert_eq!(
        standard,
        vec!["🔄 Request → POST /v1/messages https://a (conn: conn_1_2)".to_string()]
    );

    let debug = log_proxy_request_detailed(
        &endpoint,
        &method,
        &path,
        &id,
        Some(&headers),
        Some(&body),
        &DetailLevel::Debug,
    );
    assert_eq!(debug.len(), 3);
    assert_eq!(debug[1], "🔄   Headers: authorization=[FILTERED]");
    assert_eq!(debug[2], "🔄   Body: [SENSITIVE_DATA_FILTERED]");
}

#[test]
fn detailed_response_log_varies_with_the_level() {
    let endpoint = "https://a".to_string();
    let id = "conn_1_2".to_string();
    let basic =
        log_proxy_response_detailed(&endpoint, 200, &id, 12, None, None, &DetailLevel::Basic);
    assert!(basic.is_empty());
    let standard =
        log_proxy_response_detailed(&endpoint, 200, &id, 12, None, None, &DetailLevel::Standard);
    assert_eq!(
        standard,
        vec!["🔄 Response ← 200 https://a (12ms, conn: conn_1_2)".to_string()]
    );
}

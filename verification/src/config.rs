//! Configuration model and validation.
//!
//! The structures mirror the configuration file: a server section, endpoint
//! groups each naming the environment variable that holds its bearer token,
//! health-check, retry, logging and UI sections. The loader resolves each
//! group's token from the environment into `auth_token` before validation;
//! `validate` then applies every rule and reports the first violation.

use vstd::prelude::*;
use crate::i18n::Language;
use crate::strutil::{contains_seq, is_blank, str_is_blank, string_contains};

verus! {

/// Detail level for proxy request and response logging.
#[derive(Debug, Clone, Copy, PartialEq, Eq, Structural)]
pub enum DetailLevel {
    /// Endpoint url only.
    Basic,
    /// Adds method, path, status code and timing.
    Standard,
    /// Adds request and response headers.
    Detailed,
    /// Adds request and response bodies, filtered of secrets.
    Debug,
}

impl Default for DetailLevel {
    fn default() -> (r: Self)
        ensures
            r == DetailLevel::Basic,
    {
        DetailLevel::Basic
    }
}

/// One endpoint of a group.
#[derive(Debug, PartialEq, Eq)]
pub struct SimpleEndpoint {
    pub url: String,
    pub name: String,
}

impl Clone for SimpleEndpoint {
    fn clone(&self) -> (r: Self)
        ensures
            r == *self,
    {
        SimpleEndpoint { url: self.url.clone(), name: self.name.clone() }
    }
}

/// An endpoint with its optional default flag.
#[derive(Debug, PartialEq, Eq)]
pub struct EndpointConfig {
    pub url: String,
    pub name: String,
    pub default: Option<bool>,
}

impl Clone for EndpointConfig {
    fn clone(&self) -> (r: Self)
        ensures
            r == *self,
    {
        EndpointConfig { url: self.url.clone(), name: self.name.clone(), default: self.default }
    }
}

impl EndpointConfig {
    /// An endpoint record from the simple form, with no default flag.
    pub fn from_simple(simple: SimpleEndpoint) -> (r: Self)
        ensures
            r == (EndpointConfig { url: simple.url, name: simple.name, default: None::<bool> }),
    {
        EndpointConfig { url: simple.url, name: simple.name, default: None }
    }
}

/// Health-check settings.
#[derive(Debug, PartialEq, Eq)]
pub struct HealthCheckConfig {
    /// Base interval between cycles, in seconds.
    pub interval_seconds: u64,
    /// Lower bound for dynamic scaling.
    pub min_interval_seconds: Option<u64>,
    /// Upper bound for dynamic scaling.
    pub max_interval_seconds: Option<u64>,
    /// Whether the interval scales with load.
    pub dynamic_scaling: bool,
    /// Bound on each probe, in seconds.
    pub timeout_seconds: u64,
    /// Path of the probe binary.
    pub probe_binary_path: String,
}

impl Clone for HealthCheckConfig {
    fn clone(&self) -> (r: Self)
        ensures
            r == *self,
    {
        HealthCheckConfig {
            interval_seconds: self.interval_seconds,
            min_interval_seconds: self.min_interval_seconds,
            max_interval_seconds: self.max_interval_seconds,
            dynamic_scaling: self.dynamic_scaling,
            timeout_seconds: self.timeout_seconds,
            probe_binary_path: self.probe_binary_path.clone(),
        }
    }
}

/// A group of endpoints sharing one bearer token.
#[derive(Debug, PartialEq, Eq)]
pub struct Group {
    /// Group name.
    pub name: String,
    /// Name of the environment variable holding the token.
    pub auth_token_env: String,
    /// The token resolved from that variable; absent when the variable is not
    /// set.
    pub auth_token: Option<String>,
    /// The group's endpoints.
    pub endpoints: Vec<SimpleEndpoint>,
    /// Whether this is the default group.
    pub default: Option<bool>,
    /// Group-specific health-check override.
    pub health_check: Option<HealthCheckConfig>,
}

impl Clone for Group {
    fn clone(&self) -> (r: Self)
        ensures
            r.name == self.name,
            r.auth_token_env == self.auth_token_env,
            r.auth_token == self.auth_token,
            r.endpoints@ == self.endpoints@,
            r.default == self.default,
            r.health_check == self.health_check,
    {
        Group {
            name: self.name.clone(),
            auth_token_env: self.auth_token_env.clone(),
            auth_token: crate::strutil::clone_opt_string(&self.auth_token),
            endpoints: clone_endpoints(&self.endpoints),
            default: self.default,
            health_check: match &self.health_check {
                Some(hc) => Some(hc.clone()),
                None => None,
            },
        }
    }
}

/// Copies an endpoint vector entry for entry.
fn clone_endpoints(v: &Vec<SimpleEndpoint>) -> (r: Vec<SimpleEndpoint>)
    ensures
        r@ == v@,
{
    let mut r: Vec<SimpleEndpoint> = Vec::new();
    let mut i: usize = 0;
    #[verifier::loop_isolation(false)]
    while i < v.len()
        invariant
            0 <= i <= v@.len(),
            r@ == v@.subrange(0, i as int),
        decreases v@.len() - i,
    {
        r.push(v[i].clone());
        proof {
            assert(r@ =~= v@.subrange(0, i + 1));
        }
        i += 1;
    }
    proof {
        assert(v@.subrange(0, v@.len() as int) =~= v@);
    }
    r
}

/// Server settings.
#[derive(Debug, Clone, Copy, PartialEq, Eq)]
pub struct ServerConfig {
    /// Local port the proxy listens on.
    pub port: u16,
    /// Minimum improvement, in milliseconds, that triggers a switch.
    pub switch_threshold_ms: u64,
    /// Bound on a graceful switch, in milliseconds.
    pub graceful_switch_timeout_ms: u64,
}

/// Retry settings for proxied requests. The backoff multiplier is carried in
/// percent: 200 means each retry waits twice as long as the one before.
#[derive(Debug, Clone, Copy, PartialEq, Eq, Structural)]
pub struct RetryConfig {
    /// Whether retry is on at all.
    pub enabled: bool,
    /// Attempts in total, the first one included.
    pub max_attempts: u32,
    /// Delay before the first retry, in milliseconds.
    pub base_delay_ms: u64,
    /// Backoff multiplier, in percent.
    pub backoff_multiplier_percent: u32,
}

impl Default for RetryConfig {
    fn default() -> (r: Self)
        ensures
            r == (RetryConfig {
                enabled: true,
                max_attempts: 3u32,
                base_delay_ms: 1000u64,
                backoff_multiplier_percent: 200u32,
            }),
    {
        RetryConfig {
            enabled: default_retry_enabled(),
            max_attempts: default_max_attempts(),
            base_delay_ms: default_base_delay_ms(),
            backoff_multiplier_percent: default_backoff_multiplier_percent(),
        }
    }
}

/// Logging settings.
#[derive(Debug, PartialEq, Eq)]
pub struct LoggingConfig {
    /// Log level name.
    pub level: String,
    /// Detail level for proxy request and response lines.
    pub detail_level: DetailLevel,
    /// Whether the console sink is on.
    pub console_enabled: bool,
    /// Whether the file sink is on.
    pub file_enabled: bool,
    /// Log file path.
    pub file_path: String,
    /// Bound on one log file, in bytes.
    pub max_file_size: u64,
    /// Log files kept.
    pub max_files: u32,
    /// Whether lines are written as JSON.
    pub json_format: bool,
}

impl Clone for LoggingConfig {
    fn clone(&self) -> (r: Self)
        ensures
            r == *self,
    {
        LoggingConfig {
            level: self.level.clone(),
            detail_level: self.detail_level,
            console_enabled: self.console_enabled,
            file_enabled: self.file_enabled,
            file_path: self.file_path.clone(),
            max_file_size: self.max_file_size,
            max_files: self.max_files,
            json_format: self.json_format,
        }
    }
}

impl Default for LoggingConfig {
    fn default() -> (r: Self)
        ensures
            r.level@ == "info"@,
            r.detail_level == DetailLevel::Basic,
            r.console_enabled,
            !r.file_enabled,
            r.file_path@ == "logs/zephyr-proxy.log"@,
            r.max_file_size == 104_857_600,
            r.max_files == 10,
            !r.json_format,
    {
        LoggingConfig {
            level: default_log_level(),
            detail_level: DetailLevel::Basic,
            console_enabled: default_console_enabled(),
            file_enabled: default_file_enabled(),
            file_path: default_file_path(),
            max_file_size: default_max_file_size(),
            max_files: default_max_files(),
            json_format: default_json_format(),
        }
    }
}

/// UI settings.
#[derive(Debug, Clone, Copy, PartialEq, Eq, Structural)]
pub struct UiConfig {
    /// Interface language.
    pub language: Language,
}

impl Default for UiConfig {
    fn default() -> (r: Self)
        ensures
            r == (UiConfig { language: Language::En }),
    {
        UiConfig { language: Language::En }
    }
}

// Default values for optional settings.

/// Default minimum improvement that triggers a switch, in milliseconds.
pub fn default_switch_threshold() -> (r: u64)
    ensures
        r == 50,
{
    50
}

/// Default bound on a graceful switch, in milliseconds.
pub fn default_graceful_timeout() -> (r: u64)
    ensures
        r == 30000,
{
    30000
}

/// Retry is on by default.
pub fn default_retry_enabled() -> (r: bool)
    ensures
        r,
{
    true
}

/// Default number of attempts, the first one included.
pub fn default_max_attempts() -> (r: u32)
    ensures
        r == 3,
{
    3
}

/// Default delay before the first retry, in milliseconds.
pub fn default_base_delay_ms() -> (r: u64)
    ensures
        r == 1000,
{
    1000
}

/// Default backoff multiplier, in percent.
pub fn default_backoff_multiplier_percent() -> (r: u32)
    ensures
        r == 200,
{
    200
}

/// Default log level name.
pub fn default_log_level() -> (r: String)
    ensures
        r@ == "info"@,
{
    String::from_str("info")
}

/// The console sink is on by default.
pub fn default_console_enabled() -> (r: bool)
    ensures
        r,
{
    true
}

/// The file sink is off by default.
pub fn default_file_enabled() -> (r: bool)
    ensures
        !r,
{
    false
}

/// Default log file path.
pub fn default_file_path() -> (r: String)
    ensures
        r@ == "logs/zephyr-proxy.log"@,
{
    String::from_str("logs/zephyr-proxy.log")
}

/// Default bound on one log file, in bytes.
pub fn default_max_file_size() -> (r: u64)
    ensures
        r == 104_857_600,
{
    104_857_600
}

/// Default number of log files kept.
pub fn default_max_files() -> (r: u32)
    ensures
        r == 10,
{
    10
}

/// Lines are plain text by default.
pub fn default_json_format() -> (r: bool)
    ensures
        !r,
{
    false
}

/// Where a health-check rule was violated: the global section or one group's
/// override.
#[derive(Debug, PartialEq, Eq)]
pub enum ConfigScope {
    Global,
    Group { name: String },
}

/// A configuration rule violation. Each variant carries the offending values.
#[derive(Debug, PartialEq, Eq)]
pub enum ConfigError {
    /// No endpoint groups at all.
    NoGroups,
    /// A group with no endpoints.
    GroupWithoutEndpoints { group: String },
    /// A group whose environment-variable reference is blank.
    MissingAuthTokenEnv { group: String },
    /// A group whose environment variable is not set.
    EnvVarNotSet { var: String, group: String },
    /// A token still holding a placeholder value.
    PlaceholderToken { var: String },
    /// An endpoint name used twice across the groups.
    DuplicateEndpointName { name: String },
    /// A health-check interval of zero.
    ZeroInterval { scope: ConfigScope },
    /// A probe timeout of zero.
    ZeroTimeout { scope: ConfigScope },
    /// A probe timeout at or above the interval.
    TimeoutNotBelowInterval { scope: ConfigScope, timeout_seconds: u64, interval_seconds: u64 },
    /// A minimum interval of zero with dynamic scaling on.
    ZeroMinInterval { scope: ConfigScope },
    /// A minimum interval above the base interval.
    MinIntervalAboveBase { scope: ConfigScope, min_seconds: u64, interval_seconds: u64 },
    /// A probe timeout at or above the minimum interval.
    TimeoutNotBelowMinInterval { scope: ConfigScope, timeout_seconds: u64, min_seconds: u64 },
    /// A maximum interval below the base interval.
    MaxIntervalBelowBase { scope: ConfigScope, max_seconds: u64, interval_seconds: u64 },
}

impl ConfigScope {
    /// The scope named as it appears in error messages.
    pub fn text(&self) -> (r: String)
        ensures
            r@ == scope_text(*self),
    {
        match self {
            ConfigScope::Global => String::from_str("global"),
            ConfigScope::Group { name } => {
                let mut s = String::from_str("group '");
                s.append(name.as_str());
                s.append("'");
                s
            },
        }
    }
}

/// The text naming a scope in error messages.
pub open spec fn scope_text(scope: ConfigScope) -> Seq<char> {
    match scope {
        ConfigScope::Global => "global"@,
        ConfigScope::Group { name } => "group '"@ + name@ + "'"@,
    }
}

impl ConfigError {
    /// A readable message for the violation.
    pub fn message(&self) -> (r: String)
        ensures
            *self is NoGroups ==> r@ == "no endpoint groups configured"@,
            *self matches ConfigError::GroupWithoutEndpoints { group } ==> r@ == "group '"@
                + group@ + "' has no endpoints configured"@,
            *self matches ConfigError::MissingAuthTokenEnv { group } ==> r@ == "group '"@ + group@
                + "' is missing its auth_token_env reference"@,
            *self matches ConfigError::EnvVarNotSet { var, group } ==> r@
                == "environment variable '"@ + var@ + "' for group '"@ + group@ + "' is not set"@,
            *self matches ConfigError::PlaceholderToken { var } ==> r@
                == "replace the placeholder auth token in '"@ + var@ + "' with a real token"@,
            *self matches ConfigError::DuplicateEndpointName { name } ==> r@
                == "duplicate endpoint name '"@ + name@
                + "'; names must be unique across groups"@,
            *self matches ConfigError::ZeroInterval { scope } ==> r@
                == "health check interval cannot be 0 for "@ + scope_text(scope),
            *self matches ConfigError::ZeroTimeout { scope } ==> r@
                == "health check timeout cannot be 0 for "@ + scope_text(scope),
            *self matches ConfigError::TimeoutNotBelowInterval {
                scope,
                timeout_seconds,
                interval_seconds,
            } ==> r@ == "health check timeout ("@ + crate::strutil::spec_decimal(
                timeout_seconds as nat,
            ) + "s) should be less than interval ("@ + crate::strutil::spec_decimal(
                interval_seconds as nat,
            ) + "s) for "@ + scope_text(scope),
            *self matches ConfigError::ZeroMinInterval { scope } ==> r@
                == "minimum interval cannot be 0 when dynamic scaling is enabled for "@
                + scope_text(scope),
            *self matches ConfigError::MinIntervalAboveBase {
                scope,
                min_seconds,
                interval_seconds,
            } ==> r@ == "minimum interval ("@ + crate::strutil::spec_decimal(min_seconds as nat)
                + "s) cannot be greater than base interval ("@ + crate::strutil::spec_decimal(
                interval_seconds as nat,
            ) + "s) for "@ + scope_text(scope),
            *self matches ConfigError::TimeoutNotBelowMinInterval {
                scope,
                timeout_seconds,
                min_seconds,
            } ==> r@ == "health check timeout ("@ + crate::strutil::spec_decimal(
                timeout_seconds as nat,
            ) + "s) should be less than minimum interval ("@ + crate::strutil::spec_decimal(
                min_seconds as nat,
            ) + "s) for "@ + scope_text(scope),
            *self matches ConfigError::MaxIntervalBelowBase {
                scope,
                max_seconds,
                interval_seconds,
            } ==> r@ == "maximum interval ("@ + crate::strutil::spec_decimal(max_seconds as nat)
                + "s) cannot be less than base interval ("@ + crate::strutil::spec_decimal(
                interval_seconds as nat,
            ) + "s) for "@ + scope_text(scope),
    {
        match self {
            ConfigError::NoGroups => String::from_str("no endpoint groups configured"),
            ConfigError::GroupWithoutEndpoints { group } => {
                let mut s = String::from_str("group '");
                s.append(group.as_str());
                s.append("' has no endpoints configured");
                s
            },
            ConfigError::MissingAuthTokenEnv { group } => {
                let mut s = String::from_str("group '");
                s.append(group.as_str());
                s.append("' is missing its auth_token_env reference");
                s
            },
            ConfigError::EnvVarNotSet { var, group } => {
                let mut s = String::from_str("environment variable '");
                s.append(var.as_str());
                s.append("' for group '");
                s.append(group.as_str());
                s.append("' is not set");
                s
            },
            ConfigError::PlaceholderToken { var } => {
                let mut s = String::from_str("replace the placeholder auth token in '");
                s.append(var.as_str());
                s.append("' with a real token");
                s
            },
            ConfigError::DuplicateEndpointName { name } => {
                let mut s = String::from_str("duplicate endpoint name '");
                s.append(name.as_str());
                s.append("'; names must be unique across groups");
                s
            },
            ConfigError::ZeroInterval { scope } => {
                let mut s = String::from_str("health check interval cannot be 0 for ");
                s.append(scope.text().as_str());
                s
            },
            ConfigError::ZeroTimeout { scope } => {
                let mut s = String::from_str("health check timeout cannot be 0 for ");
                s.append(scope.text().as_str());
                s
            },
            ConfigError::TimeoutNotBelowInterval { scope, timeout_seconds, interval_seconds } => {
                let mut s = String::from_str("health check timeout (");
                s.append(crate::strutil::u64_to_string(*timeout_seconds).as_str());
                s.append("s) should be less than interval (");
                s.append(crate::strutil::u64_to_string(*interval_seconds).as_str());
                s.append("s) for ");
                s.append(scope.text().as_str());
                s
            },
            ConfigError::ZeroMinInterval { scope } => {
                let mut s = String::from_str(
                    "minimum interval cannot be 0 when dynamic scaling is enabled for ",
                );
                s.append(scope.text().as_str());
                s
            },
            ConfigError::MinIntervalAboveBase { scope, min_seconds, interval_seconds } => {
                let mut s = String::from_str("minimum interval (");
                s.append(crate::strutil::u64_to_string(*min_seconds).as_str());
                s.append("s) cannot be greater than base interval (");
                s.append(crate::strutil::u64_to_string(*interval_seconds).as_str());
                s.append("s) for ");
                s.append(scope.text().as_str());
                s
            },
            ConfigError::TimeoutNotBelowMinInterval { scope, timeout_seconds, min_seconds } => {
                let mut s = String::from_str("health check timeout (");
                s.append(crate::strutil::u64_to_string(*timeout_seconds).as_str());
                s.append("s) should be less than minimum interval (");
                s.append(crate::strutil::u64_to_string(*min_seconds).as_str());
                s.append("s) for ");
                s.append(scope.text().as_str());
                s
            },
            ConfigError::MaxIntervalBelowBase { scope, max_seconds, interval_seconds } => {
                let mut s = String::from_str("maximum interval (");
                s.append(crate::strutil::u64_to_string(*max_seconds).as_str());
                s.append("s) cannot be less than base interval (");
                s.append(crate::strutil::u64_to_string(*interval_seconds).as_str());
                s.append("s) for ");
                s.append(scope.text().as_str());
                s
            },
        }
    }
}

/// The whole configuration.
#[derive(Debug, PartialEq, Eq)]
pub struct Config {
    pub server: ServerConfig,
    pub groups: Vec<Group>,
    pub health_check: HealthCheckConfig,
    pub retry: RetryConfig,
    pub logging: LoggingConfig,
    pub ui: UiConfig,
}

/// Field-wise agreement of two groups, with the endpoint list compared by
/// contents (a copied list is a distinct vector with the same entries).
pub open spec fn same_group(a: Group, b: Group) -> bool {
    &&& a.name == b.name
    &&& a.auth_token_env == b.auth_token_env
    &&& a.auth_token == b.auth_token
    &&& a.endpoints@ == b.endpoints@
    &&& a.default == b.default
    &&& a.health_check == b.health_check
}

/// Field-wise agreement of two configurations, groups compared by contents.
pub open spec fn same_config(a: Config, b: Config) -> bool {
    &&& a.server == b.server
    &&& a.groups@.len() == b.groups@.len()
    &&& forall|i: int| 0 <= i < a.groups@.len() ==> same_group(#[trigger] a.groups@[i], b.groups@[i])
    &&& a.health_check == b.health_check
    &&& a.retry == b.retry
    &&& a.logging == b.logging
    &&& a.ui == b.ui
}

impl Clone for Config {
    fn clone(&self) -> (r: Self)
        ensures
            same_config(r, *self),
    {
        let mut groups: Vec<Group> = Vec::new();
        let mut i: usize = 0;
        #[verifier::loop_isolation(false)]
        while i < self.groups.len()
            invariant
                0 <= i <= self.groups@.len(),
                groups@.len() == i,
                forall|m: int|
                    0 <= m < i ==> same_group(#[trigger] groups@[m], self.groups@[m]),
            decreases self.groups@.len() - i,
        {
            let g = &self.groups[i];
            let copy = g.clone();
            groups.push(copy);
            i += 1;
        }
        Config {
            server: ServerConfig {
                port: self.server.port,
                switch_threshold_ms: self.server.switch_threshold_ms,
                graceful_switch_timeout_ms: self.server.graceful_switch_timeout_ms,
            },
            groups,
            health_check: self.health_check.clone(),
            retry: self.retry,
            logging: self.logging.clone(),
            ui: self.ui,
        }
    }
}

/// The first rule a health-check section violates in the given scope, if any.
pub open spec fn hc_error(hc: HealthCheckConfig, scope: ConfigScope) -> Option<ConfigError> {
    if hc.interval_seconds == 0 {
        Some(ConfigError::ZeroInterval { scope })
    } else if hc.timeout_seconds == 0 {
        Some(ConfigError::ZeroTimeout { scope })
    } else if hc.timeout_seconds >= hc.interval_seconds {
        Some(
            ConfigError::TimeoutNotBelowInterval {
                scope,
                timeout_seconds: hc.timeout_seconds,
                interval_seconds: hc.interval_seconds,
            },
        )
    } else if hc.dynamic_scaling {
        hc_scaling_error(hc, scope)
    } else {
        None
    }
}

/// The first dynamic-scaling rule a health-check section violates.
pub open spec fn hc_scaling_error(hc: HealthCheckConfig, scope: ConfigScope) -> Option<
    ConfigError,
> {
    match hc.min_interval_seconds {
        Some(min) => if min == 0 {
            Some(ConfigError::ZeroMinInterval { scope })
        } else if min > hc.interval_seconds {
            Some(
                ConfigError::MinIntervalAboveBase {
                    scope,
                    min_seconds: min,
                    interval_seconds: hc.interval_seconds,
                },
            )
        } else if hc.timeout_seconds >= min {
            Some(
                ConfigError::TimeoutNotBelowMinInterval {
                    scope,
                    timeout_seconds: hc.timeout_seconds,
                    min_seconds: min,
                },
            )
        } else {
            hc_max_error(hc, scope)
        },
        None => hc_max_error(hc, scope),
    }
}

/// The maximum-interval rule, checked last among the scaling rules.
pub open spec fn hc_max_error(hc: HealthCheckConfig, scope: ConfigScope) -> Option<ConfigError> {
    match hc.max_interval_seconds {
        Some(max) => if max < hc.interval_seconds {
            Some(
                ConfigError::MaxIntervalBelowBase {
                    scope,
                    max_seconds: max,
                    interval_seconds: hc.interval_seconds,
                },
            )
        } else {
            None
        },
        None => None,
    }
}

/// The first rule a single group violates, if any.
pub open spec fn group_error(g: Group) -> Option<ConfigError> {
    if g.endpoints@.len() == 0 {
        Some(ConfigError::GroupWithoutEndpoints { group: g.name })
    } else if is_blank(g.auth_token_env@) {
        Some(ConfigError::MissingAuthTokenEnv { group: g.name })
    } else {
        match g.auth_token {
            None => Some(ConfigError::EnvVarNotSet { var: g.auth_token_env, group: g.name }),
            Some(token) => if contains_seq(token@, "your-auth-token-here"@) || contains_seq(
                token@,
                "your-anthropic-auth-token-here"@,
            ) {
                Some(ConfigError::PlaceholderToken { var: g.auth_token_env })
            } else {
                None
            },
        }
    }
}

/// The first group rule violated at or after index `i`, if any.
pub open spec fn first_group_error(gs: Seq<Group>, i: int) -> Option<ConfigError>
    decreases gs.len() - i,
{
    if i < 0 || i >= gs.len() {
        None
    } else {
        match group_error(gs[i]) {
            Some(e) => Some(e),
            None => first_group_error(gs, i + 1),
        }
    }
}

/// The endpoint names of one group, in order.
pub open spec fn names_of(eps: Seq<SimpleEndpoint>) -> Seq<String>
    decreases eps.len(),
{
    if eps.len() == 0 {
        Seq::empty()
    } else {
        names_of(eps.drop_last()).push(eps.last().name)
    }
}

/// All endpoint names across the groups, in order.
pub open spec fn all_names(gs: Seq<Group>) -> Seq<String>
    decreases gs.len(),
{
    if gs.len() == 0 {
        Seq::empty()
    } else {
        all_names(gs.drop_last()) + names_of(gs.last().endpoints@)
    }
}

/// Whether some string of `s` reads `x`.
pub open spec fn seq_contains_string(s: Seq<String>, x: Seq<char>) -> bool {
    exists|i: int| 0 <= i < s.len() && #[trigger] s[i]@ == x
}

/// The first name at or after index `i` that already occurred before it.
pub open spec fn first_duplicate(names: Seq<String>, i: int) -> Option<String>
    decreases names.len() - i,
{
    if i < 0 || i >= names.len() {
        None
    } else if seq_contains_string(names.subrange(0, i), names[i]@) {
        Some(names[i])
    } else {
        first_duplicate(names, i + 1)
    }
}

/// The first health-check override violation at or after group `i`, if any.
pub open spec fn first_override_error(gs: Seq<Group>, i: int) -> Option<ConfigError>
    decreases gs.len() - i,
{
    if i < 0 || i >= gs.len() {
        None
    } else {
        let next = match gs[i].health_check {
            Some(hc) => hc_error(hc, ConfigScope::Group { name: gs[i].name }),
            None => None,
        };
        match next {
            Some(e) => Some(e),
            None => first_override_error(gs, i + 1),
        }
    }
}

/// The first rule the whole configuration violates, in the order the checks
/// run: groups present, each group sound, endpoint names unique, then the
/// global and per-group health-check sections.
pub open spec fn spec_validate(c: Config) -> Option<ConfigError> {
    if c.groups@.len() == 0 {
        Some(ConfigError::NoGroups)
    } else {
        match first_group_error(c.groups@, 0) {
            Some(e) => Some(e),
            None => match first_duplicate(all_names(c.groups@), 0) {
                Some(name) => Some(ConfigError::DuplicateEndpointName { name }),
                None => match hc_error(c.health_check, ConfigScope::Global) {
                    Some(e) => Some(e),
                    None => first_override_error(c.groups@, 0),
                },
            },
        }
    }
}

impl HealthCheckConfig {
    /// Checks this section against the interval rules for the given scope.
    fn check(&self, scope: ConfigScope) -> (r: Result<(), ConfigError>)
        ensures
            r == match hc_error(*self, scope) {
                Some(e) => Err::<(), ConfigError>(e),
                None => Ok::<(), ConfigError>(()),
            },
    {
        if self.interval_seconds == 0 {
            return Err(ConfigError::ZeroInterval { scope });
        }
        if self.timeout_seconds == 0 {
            return Err(ConfigError::ZeroTimeout { scope });
        }
        if self.timeout_seconds >= self.interval_seconds {
            return Err(
                ConfigError::TimeoutNotBelowInterval {
                    scope,
                    timeout_seconds: self.timeout_seconds,
                    interval_seconds: self.interval_seconds,
                },
            );
        }
        if !self.dynamic_scaling {
            return Ok(());
        }
        match self.min_interval_seconds {
            Some(min) => {
                if min == 0 {
                    return Err(ConfigError::ZeroMinInterval { scope });
                }
                if min > self.interval_seconds {
                    return Err(
                        ConfigError::MinIntervalAboveBase {
                            scope,
                            min_seconds: min,
                            interval_seconds: self.interval_seconds,
                        },
                    );
                }
                if self.timeout_seconds >= min {
                    return Err(
                        ConfigError::TimeoutNotBelowMinInterval {
                            scope,
                            timeout_seconds: self.timeout_seconds,
                            min_seconds: min,
                        },
                    );
                }
            },
            None => {},
        }
        match self.max_interval_seconds {
            Some(max) => {
                if max < self.interval_seconds {
                    return Err(
                        ConfigError::MaxIntervalBelowBase {
                            scope,
                            max_seconds: max,
                            interval_seconds: self.interval_seconds,
                        },
                    );
                }
            },
            None => {},
        }
        Ok(())
    }
}

impl Config {
    /// Applies every configuration rule and reports the first violation:
    /// groups must exist; every group needs endpoints, an environment
    /// reference, a resolved token that is no placeholder; endpoint names
    /// must be unique across groups; and the global and per-group
    /// health-check sections must satisfy the interval rules.
    pub fn validate(&self) -> (r: Result<(), ConfigError>)
        ensures
            r == match spec_validate(*self) {
                Some(e) => Err::<(), ConfigError>(e),
                None => Ok::<(), ConfigError>(()),
            },
            r is Ok <==> spec_validate(*self) is None,
    {
        if self.groups.len() == 0 {
            return Err(ConfigError::NoGroups);
        }
        let mut i: usize = 0;
        #[verifier::loop_isolation(false)]
        while i < self.groups.len()
            invariant
                0 <= i <= self.groups@.len(),
                first_group_error(self.groups@, 0) == first_group_error(self.groups@, i as int),
            decreases self.groups@.len() - i,
        {
            let g = &self.groups[i];
            if g.endpoints.len() == 0 {
                return Err(ConfigError::GroupWithoutEndpoints { group: g.name.clone() });
            }
            if str_is_blank(&g.auth_token_env) {
                return Err(ConfigError::MissingAuthTokenEnv { group: g.name.clone() });
            }
            match &g.auth_token {
                None => {
                    return Err(
                        ConfigError::EnvVarNotSet {
                            var: g.auth_token_env.clone(),
                            group: g.name.clone(),
                        },
                    );
                },
                Some(token) => {
                    if string_contains(token, "your-auth-token-here") || string_contains(
                        token,
                        "your-anthropic-auth-token-here",
                    ) {
                        return Err(
                            ConfigError::PlaceholderToken { var: g.auth_token_env.clone() },
                        );
                    }
                },
            }
            proof {
                assert(group_error(self.groups@[i as int]) is None);
            }
            i += 1;
        }
        match self.find_duplicate_name() {
            Some(name) => {
                return Err(ConfigError::DuplicateEndpointName { name });
            },
            None => {},
        }
        match self.health_check.check(ConfigScope::Global) {
            Err(e) => {
                return Err(e);
            },
            Ok(()) => {},
        }
        let mut j: usize = 0;
        #[verifier::loop_isolation(false)]
        while j < self.groups.len()
            invariant
                0 <= j <= self.groups@.len(),
                first_override_error(self.groups@, 0) == first_override_error(
                    self.groups@,
                    j as int,
                ),
            decreases self.groups@.len() - j,
        {
            let g = &self.groups[j];
            match &g.health_check {
                Some(hc) => {
                    match hc.check(ConfigScope::Group { name: g.name.clone() }) {
                        Err(e) => {
                            return Err(e);
                        },
                        Ok(()) => {},
                    }
                },
                None => {},
            }
            j += 1;
        }
        Ok(())
    }

    /// All endpoint names across the groups, in order.
    fn collect_names(&self) -> (r: Vec<String>)
        ensures
            r@ == all_names(self.groups@),
    {
        let mut names: Vec<String> = Vec::new();
        let mut i: usize = 0;
        #[verifier::loop_isolation(false)]
        while i < self.groups.len()
            invariant
                0 <= i <= self.groups@.len(),
                names@ == all_names(self.groups@.subrange(0, i as int)),
            decreases self.groups@.len() - i,
        {
            let eps = &self.groups[i].endpoints;
            let mut k: usize = 0;
            #[verifier::loop_isolation(false)]
            while k < eps.len()
                invariant
                    0 <= k <= eps@.len(),
                    eps@ == self.groups@[i as int].endpoints@,
                    0 <= i < self.groups@.len(),
                    names@ == all_names(self.groups@.subrange(0, i as int)) + names_of(
                        eps@.subrange(0, k as int),
                    ),
                decreases eps@.len() - k,
            {
                proof {
                    assert(eps@.subrange(0, k + 1).drop_last() =~= eps@.subrange(0, k as int));
                }
                names.push(eps[k].name.clone());
                k += 1;
            }
            proof {
                assert(eps@.subrange(0, eps@.len() as int) =~= eps@);
                assert(self.groups@.subrange(0, i + 1).drop_last() =~= self.groups@.subrange(
                    0,
                    i as int,
                ));
                assert(self.groups@.subrange(0, i + 1).last() == self.groups@[i as int]);
            }
            i += 1;
        }
        proof {
            assert(self.groups@.subrange(0, self.groups@.len() as int) =~= self.groups@);
        }
        names
    }

    /// The first endpoint name, in order, that already occurred earlier.
    fn find_duplicate_name(&self) -> (r: Option<String>)
        ensures
            r == first_duplicate(all_names(self.groups@), 0),
    {
        let names = self.collect_names();
        let mut i: usize = 0;
        #[verifier::loop_isolation(false)]
        while i < names.len()
            invariant
                0 <= i <= names@.len(),
                names@ == all_names(self.groups@),
                first_duplicate(names@, 0) == first_duplicate(names@, i as int),
            decreases names@.len() - i,
        {
            let mut j: usize = 0;
            #[verifier::loop_isolation(false)]
            while j < i
                invariant
                    0 <= j <= i < names@.len(),
                    forall|m: int| 0 <= m < j ==> names@[m]@ != names@[i as int]@,
                decreases i - j,
            {
                if names[j].eq(&names[i]) {
                    proof {
                        assert(names@.subrange(0, i as int)[j as int]@ == names@[i as int]@);
                        assert(seq_contains_string(names@.subrange(0, i as int), names@[i as int]@));
                    }
                    return Some(names[i].clone());
                }
                j += 1;
            }
            proof {
                assert(!seq_contains_string(names@.subrange(0, i as int), names@[i as int]@)) by {
                    if seq_contains_string(names@.subrange(0, i as int), names@[i as int]@) {
                        let w = choose|w: int|
                            0 <= w < i && #[trigger] names@.subrange(0, i as int)[w]@
                                == names@[i as int]@;
                        assert(names@[w]@ == names@[i as int]@);
                    }
                }
            }
            i += 1;
        }
        None
    }

    /// Base health-check interval, in seconds.
    pub fn health_check_interval(&self) -> (r: u64)
        ensures
            r == self.health_check.interval_seconds,
    {
        self.health_check.interval_seconds
    }

    /// Minimum health-check interval for dynamic scaling, in seconds.
    pub fn min_health_check_interval(&self) -> (r: u64)
        ensures
            r == match self.health_check.min_interval_seconds {
                Some(m) => m,
                None => 30,
            },
    {
        match self.health_check.min_interval_seconds {
            Some(m) => m,
            None => 30,
        }
    }

    /// Maximum health-check interval for dynamic scaling, in seconds.
    pub fn max_health_check_interval(&self) -> (r: u64)
        ensures
            r == match self.health_check.max_interval_seconds {
                Some(m) => m,
                None => 3600,
            },
    {
        match self.health_check.max_interval_seconds {
            Some(m) => m,
            None => 3600,
        }
    }

    /// Whether the interval scales with load.
    pub fn is_dynamic_scaling_enabled(&self) -> (r: bool)
        ensures
            r == self.health_check.dynamic_scaling,
    {
        self.health_check.dynamic_scaling
    }
}

/// Index of the first group flagged as default, if any, at or after `i`.
pub open spec fn first_default_group(gs: Seq<Group>, i: int) -> Option<int>
    decreases gs.len() - i,
{
    if i < 0 || i >= gs.len() {
        None
    } else if gs[i].default == Some(true) {
        Some(i)
    } else {
        first_default_group(gs, i + 1)
    }
}

/// The endpoint entries one group contributes: its token with each endpoint
/// and the group name. A group whose token is unresolved contributes none.
pub open spec fn entries_of(token: Option<String>, name: String, eps: Seq<SimpleEndpoint>) -> Seq<
    (String, SimpleEndpoint, String),
>
    decreases eps.len(),
{
    match token {
        None => Seq::empty(),
        Some(t) => if eps.len() == 0 {
            Seq::empty()
        } else {
            entries_of(Some(t), name, eps.drop_last()).push((t, eps.last(), name))
        },
    }
}

/// All endpoint entries across the groups, in order.
pub open spec fn all_entries(gs: Seq<Group>) -> Seq<(String, SimpleEndpoint, String)>
    decreases gs.len(),
{
    if gs.len() == 0 {
        Seq::empty()
    } else {
        all_entries(gs.drop_last()) + entries_of(
            gs.last().auth_token,
            gs.last().name,
            gs.last().endpoints@,
        )
    }
}

impl Config {
    /// The first group flagged as default, if any.
    pub fn get_default_group(&self) -> (r: Option<&Group>)
        ensures
            match r {
                Some(g) => first_default_group(self.groups@, 0) matches Some(i) && *g
                    == self.groups@[i],
                None => first_default_group(self.groups@, 0) is None,
            },
    {
        let mut i: usize = 0;
        #[verifier::loop_isolation(false)]
        while i < self.groups.len()
            invariant
                0 <= i <= self.groups@.len(),
                first_default_group(self.groups@, 0) == first_default_group(
                    self.groups@,
                    i as int,
                ),
            decreases self.groups@.len() - i,
        {
            match self.groups[i].default {
                Some(true) => {
                    return Some(&self.groups[i]);
                },
                _ => {},
            }
            i += 1;
        }
        None
    }

    /// The default group's token and first endpoint, when a default group
    /// exists with a resolved token and at least one endpoint.
    pub fn get_default_endpoint(&self) -> (r: Option<(String, SimpleEndpoint)>)
        ensures
            match r {
                Some(p) => first_default_group(self.groups@, 0) matches Some(i)
                    && self.groups@[i].auth_token == Some(p.0) && self.groups@[i].endpoints@.len()
                    > 0 && p.1 == self.groups@[i].endpoints@[0],
                None => first_default_group(self.groups@, 0) matches Some(i) ==> (
                self.groups@[i].auth_token is None || self.groups@[i].endpoints@.len() == 0),
            },
    {
        match self.get_default_group() {
            Some(group) => {
                if group.endpoints.len() > 0 {
                    match &group.auth_token {
                        Some(token) => Some((token.clone(), group.endpoints[0].clone())),
                        None => None,
                    }
                } else {
                    None
                }
            },
            None => None,
        }
    }

    /// Every endpoint with its token and group name, in configuration order;
    /// groups whose token is unresolved contribute nothing.
    pub fn get_all_endpoints(&self) -> (r: Vec<(String, SimpleEndpoint, String)>)
        ensures
            r@ == all_entries(self.groups@),
    {
        let mut entries: Vec<(String, SimpleEndpoint, String)> = Vec::new();
        let mut i: usize = 0;
        #[verifier::loop_isolation(false)]
        while i < self.groups.len()
            invariant
                0 <= i <= self.groups@.len(),
                entries@ == all_entries(self.groups@.subrange(0, i as int)),
            decreases self.groups@.len() - i,
        {
            let g = &self.groups[i];
            match &g.auth_token {
                Some(token) => {
                    let mut k: usize = 0;
                    #[verifier::loop_isolation(false)]
                    while k < g.endpoints.len()
                        invariant
                            0 <= k <= g.endpoints@.len(),
                            0 <= i < self.groups@.len(),
                            g == &self.groups[i as int],
                            g.auth_token matches Some(t) && t == token,
                            entries@ == all_entries(self.groups@.subrange(0, i as int))
                                + entries_of(
                                Some(*token),
                                g.name,
                                g.endpoints@.subrange(0, k as int),
                            ),
                        decreases g.endpoints@.len() - k,
                    {
                        proof {
                            assert(g.endpoints@.subrange(0, k + 1).drop_last() =~= g
                                .endpoints@
                                .subrange(0, k as int));
                        }
                        let entry = (token.clone(), g.endpoints[k].clone(), g.name.clone());
                        entries.push(entry);
                        k += 1;
                    }
                    proof {
                        assert(g.endpoints@.subrange(0, g.endpoints@.len() as int) =~= g
                            .endpoints@);
                    }
                },
                None => {
                    proof {
                        assert(entries_of(g.auth_token, g.name, g.endpoints@)
                            =~= Seq::<(String, SimpleEndpoint, String)>::empty());
                    }
                },
            }
            proof {
                assert(self.groups@.subrange(0, i + 1).drop_last() =~= self.groups@.subrange(
                    0,
                    i as int,
                ));
                assert(self.groups@.subrange(0, i + 1).last() == self.groups@[i as int]);
            }
            i += 1;
        }
        proof {
            assert(self.groups@.subrange(0, self.groups@.len() as int) =~= self.groups@);
        }
        entries
    }

    /// As `get_all_endpoints`, with each endpoint in its record form.
    pub fn get_all_endpoints_legacy(&self) -> (r: Vec<(String, EndpointConfig, String)>)
        ensures
            r@.len() == all_entries(self.groups@).len(),
            forall|i: int|
                0 <= i < r@.len() ==> #[trigger] r@[i] == (
                all_entries(self.groups@)[i].0,
                EndpointConfig {
                    url: all_entries(self.groups@)[i].1.url,
                    name: all_entries(self.groups@)[i].1.name,
                    default: None::<bool>,
                },
                all_entries(self.groups@)[i].2,
                ),
    {
        let base = self.get_all_endpoints();
        let mut r: Vec<(String, EndpointConfig, String)> = Vec::new();
        let mut i: usize = 0;
        #[verifier::loop_isolation(false)]
        while i < base.len()
            invariant
                0 <= i <= base@.len(),
                base@ == all_entries(self.groups@),
                r@.len() == i,
                forall|m: int|
                    0 <= m < i ==> #[trigger] r@[m] == (
                    base@[m].0,
                    EndpointConfig {
                        url: base@[m].1.url,
                        name: base@[m].1.name,
                        default: None::<bool>,
                    },
                    base@[m].2,
                    ),
            decreases base@.len() - i,
        {
            let entry = (
                base[i].0.clone(),
                EndpointConfig {
                    url: base[i].1.url.clone(),
                    name: base[i].1.name.clone(),
                    default: None,
                },
                base[i].2.clone(),
            );
            r.push(entry);
            i += 1;
        }
        r
    }
}

} // verus!

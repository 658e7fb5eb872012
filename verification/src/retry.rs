//! Same-endpoint retry with exponential backoff.
//!
//! An attempt's outcome is classified as retryable (transport errors and
//! server errors) or not (any other response, which is delivered unchanged),
//! and the policy decides whether to retry, after which delay, or to give the
//! endpoint up. Retry happens only when it is enabled, more than one attempt
//! is allowed, and attempts remain — so a single-attempt policy never
//! retries, enabled or not.

use vstd::prelude::*;
use crate::config::RetryConfig;

verus! {

/// A failure that warrants another attempt.
#[derive(Debug, PartialEq, Eq)]
pub enum RetryableError {
    /// A transport-level failure, with its text.
    ConnectionError(String),
    /// The attempt timed out.
    Timeout,
    /// The upstream answered with a server error.
    ServerError(u16),
}

/// Classifies a transport error: a timeout stays a timeout, everything else
/// counts as a connection error carrying its text.
pub fn classify_error(is_timeout: bool, message: String) -> (r: RetryableError)
    ensures
        r == if is_timeout {
            RetryableError::Timeout
        } else {
            RetryableError::ConnectionError(message)
        },
{
    if is_timeout {
        RetryableError::Timeout
    } else {
        RetryableError::ConnectionError(message)
    }
}

/// `x`, capped at the largest `u64`.
pub open spec fn cap_u64(x: int) -> int {
    if x > u64::MAX {
        u64::MAX as int
    } else {
        x
    }
}

/// The delay before retry number `attempt`: the base delay, multiplied by the
/// backoff factor (in percent) once per completed attempt, capped.
pub open spec fn spec_backoff_delay(base_delay_ms: u64, multiplier_percent: u32, attempt: u32) -> int
    decreases attempt,
{
    if attempt <= 1 {
        base_delay_ms as int
    } else {
        cap_u64(
            spec_backoff_delay(base_delay_ms, multiplier_percent, (attempt - 1) as u32)
                * multiplier_percent / 100,
        )
    }
}

/// The delay before retry number `attempt`, in milliseconds.
#[verifier::loop_isolation(false)]
pub fn calculate_backoff_delay(attempt: u32, base_delay_ms: u64, multiplier_percent: u32) -> (r:
    u64)
    requires
        attempt >= 1,
    ensures
        r == spec_backoff_delay(base_delay_ms, multiplier_percent, attempt),
{
    let mut delay: u64 = base_delay_ms;
    let mut k: u32 = 1;
    while k < attempt
        invariant
            1 <= k <= attempt,
            delay == spec_backoff_delay(base_delay_ms, multiplier_percent, k),
        decreases attempt - k,
    {
        proof {
            assert((delay as int) * (multiplier_percent as int) <= (u64::MAX as int) * (
            u32::MAX as int)) by (nonlinear_arith)
                requires
                    0 <= delay <= u64::MAX,
                    0 <= multiplier_percent <= u32::MAX,
            ;
        }
        let scaled: u128 = (delay as u128) * (multiplier_percent as u128) / 100;
        delay = if scaled > u64::MAX as u128 {
            u64::MAX
        } else {
            scaled as u64
        };
        k = k + 1;
    }
    delay
}

/// Whether the policy allows another attempt after attempt number `attempt`.
pub open spec fn retry_allowed(config: RetryConfig, attempt: u32) -> bool {
    config.enabled && config.max_attempts > 1 && attempt < config.max_attempts
}

/// What one forwarding attempt yielded: a response with its status, or a
/// transport failure.
#[derive(Debug, PartialEq, Eq)]
pub enum AttemptOutcome {
    /// The upstream answered; carries the HTTP status.
    Response { status: u16 },
    /// The attempt failed in transport.
    Failed(RetryableError),
}

/// What to do after one attempt.
#[derive(Debug, Clone, Copy, PartialEq, Eq, Structural)]
pub enum AttemptDecision {
    /// Hand the response to the client as it is.
    Deliver,
    /// Try the same endpoint again after the given delay.
    RetryAfter { delay_ms: u64 },
    /// Give this endpoint up and move to fallback.
    FailEndpoint,
}

/// The policy's decision after attempt number `attempt` ended in `outcome`:
/// server errors and transport failures retry while retry is allowed; any
/// other response is delivered; a transport failure past the last allowed
/// attempt fails the endpoint.
pub open spec fn spec_decision(
    config: RetryConfig,
    attempt: u32,
    outcome: AttemptOutcome,
) -> AttemptDecision {
    match outcome {
        AttemptOutcome::Response { status } => if 500 <= status < 600 && retry_allowed(
            config,
            attempt,
        ) {
            AttemptDecision::RetryAfter {
                delay_ms: spec_backoff_delay(
                    config.base_delay_ms,
                    config.backoff_multiplier_percent,
                    attempt,
                ) as u64,
            }
        } else {
            AttemptDecision::Deliver
        },
        AttemptOutcome::Failed(_) => if retry_allowed(config, attempt) {
            AttemptDecision::RetryAfter {
                delay_ms: spec_backoff_delay(
                    config.base_delay_ms,
                    config.backoff_multiplier_percent,
                    attempt,
                ) as u64,
            }
        } else {
            AttemptDecision::FailEndpoint
        },
    }
}

/// Decides what to do after attempt number `attempt` ended in `outcome`.
pub fn next_attempt_decision(config: &RetryConfig, attempt: u32, outcome: &AttemptOutcome) -> (r:
    AttemptDecision)
    requires
        attempt >= 1,
    ensures
        r == spec_decision(*config, attempt, *outcome),
{
    let allowed = config.enabled && config.max_attempts > 1 && attempt < config.max_attempts;
    match outcome {
        AttemptOutcome::Response { status } => {
            if 500 <= *status && *status < 600 && allowed {
                AttemptDecision::RetryAfter {
                    delay_ms: calculate_backoff_delay(
                        attempt,
                        config.base_delay_ms,
                        config.backoff_multiplier_percent,
                    ),
                }
            } else {
                AttemptDecision::Deliver
            }
        },
        AttemptOutcome::Failed(_) => {
            if allowed {
                AttemptDecision::RetryAfter {
                    delay_ms: calculate_backoff_delay(
                        attempt,
                        config.base_delay_ms,
                        config.backoff_multiplier_percent,
                    ),
                }
            } else {
                AttemptDecision::FailEndpoint
            }
        },
    }
}

/// Law: a single-attempt policy never retries, whether or not retry is
/// enabled.
pub proof fn lemma_single_attempt_never_retries(
    config: RetryConfig,
    attempt: u32,
    outcome: AttemptOutcome,
)
    requires
        config.max_attempts <= 1,
    ensures
        !(spec_decision(config, attempt, outcome) is RetryAfter),
{
}

} // verus!

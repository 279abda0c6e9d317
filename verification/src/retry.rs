//! Per-status retry policy of the attempt loop: rotation, retry strategies,
//! the thinking-signature markers, and the mapping from a final status to the
//! client-visible error kind.
use vstd::prelude::*;

use crate::strutil::{contains_seq, str_contains};

verus! {

/// The most attempts any request may make, before the pool bound is applied.
pub const MAX_RETRY_ATTEMPTS: usize = 3;

/// The attempt bound for a pool of `pool_size` accounts:
/// `clamp(MAX_RETRY_ATTEMPTS, 2, pool_size + 1)`.
pub open spec fn max_attempts_spec(pool_size: nat) -> nat {
    let capped = if MAX_RETRY_ATTEMPTS as nat <= pool_size + 1 {
        MAX_RETRY_ATTEMPTS as nat
    } else {
        pool_size + 1
    };
    if capped >= 2 {
        capped
    } else {
        2
    }
}

/// Computes the attempt bound for the pool size.
pub fn max_attempts(pool_size: usize) -> (r: usize)
    ensures
        r == max_attempts_spec(pool_size as nat),
        2 <= r <= MAX_RETRY_ATTEMPTS,
{
    let capped = if pool_size >= MAX_RETRY_ATTEMPTS {
        MAX_RETRY_ATTEMPTS
    } else {
        pool_size + 1
    };
    if capped >= 2 {
        capped
    } else {
        2
    }
}

/// Whether the attempt loop moves to another account after this status:
/// client-attributable statuses rotate, transient server-side ones keep the
/// same account.
pub open spec fn rotates(status: u16) -> bool {
    status == 401 || status == 402 || status == 403 || status == 429
}

/// True when the dispatcher should rotate to a different account for this
/// upstream status.
pub fn should_rotate_account(status: u16) -> (r: bool)
    ensures
        r == rotates(status),
{
    status == 401 || status == 402 || status == 403 || status == 429
}

/// The error body carries one of the thinking-signature markers that trigger
/// the one-shot strip-thinking recovery.
pub open spec fn has_thinking_signature_marker(body: Seq<char>) -> bool {
    ||| contains_seq(body, "Invalid `signature`"@)
    ||| contains_seq(body, "thinking.signature: Field required"@)
    ||| contains_seq(body, "thinking.thinking: Field required"@)
    ||| contains_seq(body, "thinking.signature"@)
    ||| contains_seq(body, "thinking.thinking"@)
    ||| contains_seq(body, "Corrupted thought signature"@)
    ||| contains_seq(body, "failed to deserialise"@)
    ||| contains_seq(body, "Invalid signature"@)
    ||| contains_seq(body, "thinking block"@)
    ||| contains_seq(body, "Found `text`"@)
    ||| contains_seq(body, "Found 'text'"@)
    ||| contains_seq(body, "must be `thinking`"@)
    ||| contains_seq(body, "must be 'thinking'"@)
}

/// Tests the error body for the thinking-signature markers.
pub fn body_has_thinking_signature_marker(body: &str) -> (r: bool)
    ensures
        r == has_thinking_signature_marker(body@),
{
    str_contains(body, "Invalid `signature`") || str_contains(
        body,
        "thinking.signature: Field required",
    ) || str_contains(body, "thinking.thinking: Field required") || str_contains(
        body,
        "thinking.signature",
    ) || str_contains(body, "thinking.thinking") || str_contains(
        body,
        "Corrupted thought signature",
    ) || str_contains(body, "failed to deserialise") || str_contains(body, "Invalid signature")
        || str_contains(body, "thinking block") || str_contains(body, "Found `text`")
        || str_contains(body, "Found 'text'") || str_contains(body, "must be `thinking`")
        || str_contains(body, "must be 'thinking'")
}

/// A 400 whose body asks for the strip-thinking recovery, provided it has not
/// been tried yet.
pub open spec fn is_thinking_recovery_case(status: u16, body: Seq<char>, retried: bool) -> bool {
    status == 400 && !retried && has_thinking_signature_marker(body)
}

/// A 400 that reports the prompt as too long: not retryable.
pub open spec fn is_prompt_too_long(status: u16, body: Seq<char>) -> bool {
    status == 400 && (contains_seq(body, "too long"@) || contains_seq(body, "exceeds"@)
        || contains_seq(body, "limit"@))
}

/// Tests the status and body for the non-retryable prompt-too-long case.
pub fn is_prompt_too_long_error(status: u16, body: &str) -> (r: bool)
    ensures
        r == is_prompt_too_long(status, body@),
{
    status == 400 && (str_contains(body, "too long") || str_contains(body, "exceeds")
        || str_contains(body, "limit"))
}

/// A 403 that demands out-of-band account validation.
pub open spec fn is_validation_required(status: u16, body: Seq<char>) -> bool {
    status == 403 && (contains_seq(body, "VALIDATION_REQUIRED"@) || contains_seq(
        body,
        "verify your account"@,
    ) || contains_seq(body, "validation_url"@))
}

/// Tests the status and body for the validation-required case.
pub fn is_validation_required_error(status: u16, body: &str) -> (r: bool)
    ensures
        r == is_validation_required(status, body@),
{
    status == 403 && (str_contains(body, "VALIDATION_REQUIRED") || str_contains(
        body,
        "verify your account",
    ) || str_contains(body, "validation_url"))
}

/// How an attempt that failed with some status is retried.
#[derive(Debug, Clone, Copy, PartialEq, Eq, Structural)]
pub enum RetryStrategy {
    /// Wait the fixed number of milliseconds, then retry.
    FixedDelay(u64),
    /// Wait `base_ms` doubled per attempt, capped at `max_ms`, then retry.
    ExponentialBackoff { base_ms: u64, max_ms: u64 },
    /// Surface the error at once.
    NoRetry,
}

/// The retry strategy for an upstream status and error body. On a 400 the
/// strip-thinking recovery takes precedence: a body that carries both a
/// thinking-signature marker and a too-long marker is still recovered once.
pub open spec fn retry_strategy_spec(status: u16, body: Seq<char>, retried: bool) -> RetryStrategy {
    if status == 400 {
        if is_thinking_recovery_case(status, body, retried) {
            RetryStrategy::FixedDelay(200)
        } else {
            RetryStrategy::NoRetry
        }
    } else if status == 401 || status == 402 || status == 403 {
        RetryStrategy::FixedDelay(100)
    } else if status == 429 {
        RetryStrategy::ExponentialBackoff { base_ms: 1000, max_ms: 30000 }
    } else if status == 500 || status == 503 || status == 529 {
        RetryStrategy::ExponentialBackoff { base_ms: 500, max_ms: 8000 }
    } else if 500 <= status < 600 {
        RetryStrategy::FixedDelay(500)
    } else {
        RetryStrategy::NoRetry
    }
}

/// Chooses the retry strategy for an upstream status: a short fixed delay for
/// rotating statuses and the recoverable 400, exponential backoff for
/// rate-limit and overload statuses, a fixed delay for other server-side
/// errors, and no retry otherwise.
pub fn determine_retry_strategy(status: u16, body: &str, retried: bool) -> (r: RetryStrategy)
    ensures
        r == retry_strategy_spec(status, body@, retried),
{
    if status == 400 {
        if !retried && body_has_thinking_signature_marker(body) {
            RetryStrategy::FixedDelay(200)
        } else {
            RetryStrategy::NoRetry
        }
    } else if status == 401 || status == 402 || status == 403 {
        RetryStrategy::FixedDelay(100)
    } else if status == 429 {
        RetryStrategy::ExponentialBackoff { base_ms: 1000, max_ms: 30000 }
    } else if status == 500 || status == 503 || status == 529 {
        RetryStrategy::ExponentialBackoff { base_ms: 500, max_ms: 8000 }
    } else if 500 <= status && status < 600 {
        RetryStrategy::FixedDelay(500)
    } else {
        RetryStrategy::NoRetry
    }
}

/// The doubling factor of attempt `attempt` (the loop makes at most a
/// handful, so the factor is capped at 8).
pub open spec fn backoff_factor(attempt: nat) -> nat {
    if attempt == 0 {
        1
    } else if attempt == 1 {
        2
    } else if attempt == 2 {
        4
    } else {
        8
    }
}

/// The delay of `strategy` at attempt `attempt`, in milliseconds.
pub open spec fn strategy_delay_spec(strategy: RetryStrategy, attempt: nat) -> nat {
    match strategy {
        RetryStrategy::FixedDelay(d) => d as nat,
        RetryStrategy::ExponentialBackoff { base_ms, max_ms } => {
            let amt = base_ms * backoff_factor(attempt);
            if amt > max_ms {
                max_ms as nat
            } else {
                amt as nat
            }
        },
        RetryStrategy::NoRetry => 0,
    }
}

/// Whether the loop continues, and how long it waits first. The loop
/// continues exactly when the strategy allows a retry and another attempt is
/// still permitted.
pub fn apply_retry_strategy(strategy: RetryStrategy, attempt: usize, max_attempts: usize) -> (r: (
    bool,
    u64,
))
    ensures
        r.0 == (attempt + 1 < max_attempts && !(strategy is NoRetry)),
        r.1 == strategy_delay_spec(strategy, attempt as nat),
{
    let delay: u64 = match strategy {
        RetryStrategy::FixedDelay(d) => d,
        RetryStrategy::ExponentialBackoff { base_ms, max_ms } => {
            let amt: u128 = if attempt == 0 {
                base_ms as u128
            } else if attempt == 1 {
                base_ms as u128 * 2
            } else if attempt == 2 {
                base_ms as u128 * 4
            } else {
                base_ms as u128 * 8
            };
            if amt > max_ms as u128 {
                max_ms
            } else {
                amt as u64
            }
        },
        RetryStrategy::NoRetry => 0,
    };
    let cont = match strategy {
        RetryStrategy::NoRetry => false,
        _ => attempt < max_attempts && max_attempts - attempt > 1,
    };
    (cont, delay)
}

/// The client-visible error kind of a final status.
#[derive(Debug, Clone, Copy, PartialEq, Eq, Structural)]
pub enum AnthropicErrorKind {
    InvalidRequest,
    Authentication,
    Permission,
    RateLimit,
    Overloaded,
    Api,
}

/// The error kind a final upstream status maps to.
pub open spec fn error_kind_of_status(status: u16) -> AnthropicErrorKind {
    if status == 400 {
        AnthropicErrorKind::InvalidRequest
    } else if status == 401 {
        AnthropicErrorKind::Authentication
    } else if status == 403 {
        AnthropicErrorKind::Permission
    } else if status == 429 {
        AnthropicErrorKind::RateLimit
    } else if status == 529 {
        AnthropicErrorKind::Overloaded
    } else {
        AnthropicErrorKind::Api
    }
}

/// Maps a final status to the client-visible error kind.
pub fn error_type_for_status(status: u16) -> (r: AnthropicErrorKind)
    ensures
        r == error_kind_of_status(status),
{
    if status == 400 {
        AnthropicErrorKind::InvalidRequest
    } else if status == 401 {
        AnthropicErrorKind::Authentication
    } else if status == 403 {
        AnthropicErrorKind::Permission
    } else if status == 429 {
        AnthropicErrorKind::RateLimit
    } else if status == 529 {
        AnthropicErrorKind::Overloaded
    } else {
        AnthropicErrorKind::Api
    }
}

impl AnthropicErrorKind {
    /// The wire name of the kind in Anthropic-schema error JSON.
    pub open spec fn wire_name_spec(&self) -> Seq<char> {
        match self {
            AnthropicErrorKind::InvalidRequest => "invalid_request_error"@,
            AnthropicErrorKind::Authentication => "authentication_error"@,
            AnthropicErrorKind::Permission => "permission_error"@,
            AnthropicErrorKind::RateLimit => "rate_limit_error"@,
            AnthropicErrorKind::Overloaded => "overloaded_error"@,
            AnthropicErrorKind::Api => "api_error"@,
        }
    }

    /// Returns the kind's wire name.
    pub fn wire_name(&self) -> (r: String)
        ensures
            r@ == self.wire_name_spec(),
    {
        match self {
            AnthropicErrorKind::InvalidRequest => String::from_str("invalid_request_error"),
            AnthropicErrorKind::Authentication => String::from_str("authentication_error"),
            AnthropicErrorKind::Permission => String::from_str("permission_error"),
            AnthropicErrorKind::RateLimit => String::from_str("rate_limit_error"),
            AnthropicErrorKind::Overloaded => String::from_str("overloaded_error"),
            AnthropicErrorKind::Api => String::from_str("api_error"),
        }
    }
}

/// The curated reauthorization guidance shown when a lease fails on a revoked
/// OAuth grant.
pub const INVALID_GRANT_GUIDANCE: &'static str =
    "OAuth refresh failed (invalid_grant): refresh_token likely revoked/expired; reauthorize account(s) to restore service.";

/// Rewrites a lease error for the client: an `invalid_grant` failure becomes
/// the curated reauthorization prompt, anything else passes unchanged.
pub fn sanitize_lease_error(e: &str) -> (r: String)
    ensures
        contains_seq(e@, "invalid_grant"@) ==> r@ == INVALID_GRANT_GUIDANCE@,
        !contains_seq(e@, "invalid_grant"@) ==> r@ == e@,
{
    if str_contains(e, "invalid_grant") {
        String::from_str(INVALID_GRANT_GUIDANCE)
    } else {
        String::from_str(e)
    }
}

} // verus!

use proxy_core::models::TokenLease;
use proxy_core::sticky_config::{SchedulingMode, StickySessionConfig};
use proxy_core::token_manager::{Account, TokenManager};

fn account(n: &str) -> Account {
    Account::new(
        format!("id-{}", n),
        format!("{}@example.com", n),
        format!("tok-{}", n),
        format!("proj-{}", n),
    )
}

fn pool(names: &[&str], mode: SchedulingMode) -> TokenManager {
    let accounts: Vec<Account> = names.iter().map(|n| account(n)).collect();
    let config = StickySessionConfig {
        mode,
        max_wait_seconds: 60,
        selected_accounts: Vec::new(),
        selected_models: Vec::new(),
    };
    TokenManager::new(accounts, config)
}

#[test]
fn get_token_returns_available_account() {
    let mut tm = pool(&["a", "b"], SchedulingMode::Balance);
    let now = 1_000_000;
    let lease: TokenLease =
        tm.get_token("agent", false, Some("sess"), "anthropic-sonnet-4-5", now).unwrap();
    assert!(lease.email == "a@example.com" || lease.email == "b@example.com");
    assert!(tm.has_available_account("anthropic", "anthropic-sonnet-4-5", now));
}

#[test]
fn rate_limited_account_is_unavailable_until_retry_after() {
    let mut tm = pool(&["a"], SchedulingMode::Balance);
    let now = 1_000_000;
    tm.mark_rate_limited("a@example.com", 429, Some(30), "anthropic-sonnet-4-5", "anthropic", now);
    // Unavailable throughout the Retry-After window.
    assert!(!tm.has_available_account("anthropic", "anthropic-sonnet-4-5", now));
    assert!(!tm.has_available_account("anthropic", "anthropic-sonnet-4-5", now + 29));
    // The default 429 hold is sixty seconds, which dominates here.
    assert!(!tm.has_available_account("anthropic", "anthropic-sonnet-4-5", now + 59));
    assert!(tm.has_available_account("anthropic", "anthropic-sonnet-4-5", now + 60));
    // Another model stays available.
    assert!(tm.has_available_account("anthropic", "anthropic-opus-4-5", now));
}

#[test]
fn retry_after_dominates_default_hold() {
    let mut tm = pool(&["a"], SchedulingMode::Balance);
    let now = 2_000;
    tm.mark_rate_limited("a@example.com", 429, Some(600), "m", "anthropic", now);
    assert!(!tm.has_available_account("anthropic", "m", now + 599));
    assert!(tm.has_available_account("anthropic", "m", now + 600));
}

#[test]
fn pool_exhausted_on_429_marks_every_account() {
    let mut tm = pool(&["a", "b", "c"], SchedulingMode::Balance);
    let now = 5_000;
    for email in ["a@example.com", "b@example.com", "c@example.com"] {
        tm.mark_rate_limited(email, 429, Some(30), "anthropic-sonnet-4-5", "anthropic", now);
    }
    assert!(!tm.has_available_account("anthropic", "anthropic-sonnet-4-5", now));
    assert!(!tm.has_available_account("anthropic", "anthropic-sonnet-4-5", now + 29));
    let err = tm.get_token("agent", true, None, "anthropic-sonnet-4-5", now).unwrap_err();
    assert_eq!(err, "no available accounts");
}

#[test]
fn get_token_errs_exactly_when_no_account_qualifies() {
    let mut tm = pool(&[], SchedulingMode::Balance);
    assert!(tm.get_token("agent", false, None, "m", 0).is_err());
}

#[test]
fn invalid_grant_shows_in_lease_error() {
    let mut tm = pool(&["a"], SchedulingMode::Balance);
    tm.report_account_failure("id-a", 401, "oauth: invalid_grant, token revoked");
    let err = tm.get_token("agent", false, None, "m", 0).unwrap_err();
    assert!(err.contains("invalid_grant"));
}

#[test]
fn success_clears_rate_limits_for_model() {
    let mut tm = pool(&["a"], SchedulingMode::Balance);
    let now = 10;
    tm.mark_rate_limited("a@example.com", 429, Some(1000), "m", "anthropic", now);
    assert!(!tm.has_available_account("anthropic", "m", now));
    tm.mark_account_success("a@example.com", Some("m"));
    assert!(tm.has_available_account("anthropic", "m", now));
}

#[test]
fn validation_block_expires_by_time() {
    let mut tm = pool(&["a"], SchedulingMode::Balance);
    tm.set_validation_block_public("id-a", 700).unwrap();
    assert!(!tm.has_available_account("anthropic", "m", 600));
    assert!(tm.has_available_account("anthropic", "m", 700));
    assert!(tm.set_validation_block_public("id-zzz", 700).is_err());
}

#[test]
fn selected_mode_restricts_accounts_and_models() {
    let accounts = vec![account("a"), account("b")];
    let config = StickySessionConfig {
        mode: SchedulingMode::Selected,
        max_wait_seconds: 60,
        selected_accounts: vec!["id-b".to_string()],
        selected_models: vec![("id-b".to_string(), vec!["m1".to_string()])],
    };
    let mut tm = TokenManager::new(accounts, config);
    let lease = tm.get_token("agent", false, None, "m1", 0).unwrap();
    assert_eq!(lease.account_id, "id-b");
    assert!(tm.get_token("agent", false, None, "m2", 0).is_err());
}

#[test]
fn sticky_session_prefers_bound_account() {
    let mut tm = pool(&["a", "b", "c"], SchedulingMode::Balance);
    let first = tm.get_token("agent", false, Some("s1"), "m", 0).unwrap();
    let second = tm.get_token("agent", false, Some("s1"), "m", 0).unwrap();
    assert_eq!(first.account_id, second.account_id);
}

#[test]
fn performance_first_round_robins() {
    let mut tm = pool(&["a", "b"], SchedulingMode::PerformanceFirst);
    let l1 = tm.get_token("agent", false, None, "m", 0).unwrap();
    let l2 = tm.get_token("agent", false, None, "m", 0).unwrap();
    assert_ne!(l1.account_id, l2.account_id);
}

#[test]
fn cache_first_waits_for_the_sticky_account() {
    let mut tm = pool(&["a"], SchedulingMode::CacheFirst);
    let now = 100;
    let lease = tm.get_token("agent", false, Some("s1"), "m", now).unwrap();
    assert_eq!(lease.email, "a@example.com");
    tm.mark_rate_limited("a@example.com", 429, Some(30), "m", "anthropic", now);
    // Hold is max(60, 30) = 60 seconds, within the one-minute wait bound.
    assert_eq!(tm.sticky_wait_hint("s1", "anthropic", "m", now), Some(60));
    // Other modes, other sessions and longer holds give no hint.
    assert_eq!(tm.sticky_wait_hint("nosuch", "anthropic", "m", now), None);
    tm.mark_rate_limited("a@example.com", 429, Some(600), "m", "anthropic", now);
    assert_eq!(tm.sticky_wait_hint("s1", "anthropic", "m", now), None);
}

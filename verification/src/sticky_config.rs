//! Scheduling configuration of the account pool: the four scheduling modes
//! and the sticky-session parameters that govern them.
use vstd::prelude::*;

verus! {

/// How the token manager selects the account that serves a request.
#[derive(Debug, Clone, Copy, PartialEq, Eq, Structural)]
pub enum SchedulingMode {
    /// Lock onto the session's account; when it is rate-limited, wait for it
    /// to clear (up to `max_wait_seconds`) before considering others.
    CacheFirst,
    /// Lock onto the session's account; when it is unavailable, switch to the
    /// best available account at once.
    Balance,
    /// Pure round-robin over the available accounts; stickiness is ignored.
    PerformanceFirst,
    /// Balance, restricted to the configured account list and each account's
    /// permitted models.
    Selected,
}

impl Default for SchedulingMode {
    /// The default scheduling mode is `Balance`.
    fn default() -> (r: Self)
        ensures
            r == SchedulingMode::Balance,
    {
        Self::Balance
    }
}

/// Sticky-session scheduling parameters.
#[derive(Debug, Clone, PartialEq)]
pub struct StickySessionConfig {
    /// The active scheduling mode.
    pub mode: SchedulingMode,
    /// How long `CacheFirst` may wait, in seconds, for the sticky account's
    /// rate limit to clear.
    pub max_wait_seconds: u64,
    /// Account ids admitted under `Selected`.
    pub selected_accounts: Vec<String>,
    /// Per-account model whitelist under `Selected`; an account with an empty
    /// list, or with no entry, may serve every model.
    pub selected_models: Vec<(String, Vec<String>)>,
}

pub struct StickySessionConfigV {
    pub mode: SchedulingMode,
    pub max_wait_seconds: u64,
    pub selected_accounts: Seq<Seq<char>>,
    pub selected_models: Seq<(Seq<char>, Seq<Seq<char>>)>,
}

impl DeepView for StickySessionConfig {
    type V = StickySessionConfigV;

    open spec fn deep_view(&self) -> StickySessionConfigV {
        StickySessionConfigV {
            mode: self.mode,
            max_wait_seconds: self.max_wait_seconds,
            selected_accounts: self.selected_accounts.deep_view(),
            selected_models: self.selected_models.deep_view(),
        }
    }
}

impl Default for StickySessionConfig {
    /// Balance mode, a one minute cache-first wait bound, and no account or
    /// model restriction.
    fn default() -> (r: Self)
        ensures
            r.mode == SchedulingMode::Balance,
            r.max_wait_seconds == 60,
            r.selected_accounts@.len() == 0,
            r.selected_models@.len() == 0,
    {
        Self {
            mode: SchedulingMode::Balance,
            max_wait_seconds: 60,
            selected_accounts: Vec::new(),
            selected_models: Vec::new(),
        }
    }
}

} // verus!

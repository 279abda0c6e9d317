//! The provider arbiter: whether a request goes to the fallback provider
//! instead of the primary pool, decided by the dispatch mode.
use vstd::prelude::*;

verus! {

/// How the fallback provider takes part in dispatch.
#[derive(Debug, Clone, Copy, PartialEq, Eq, Structural)]
pub enum DispatchMode {
    /// The fallback never serves.
    Off,
    /// The fallback always serves.
    Exclusive,
    /// The primary pool serves while it has an available account.
    Fallback,
    /// Primary accounts and the fallback share round-robin slots.
    Pooled,
}

/// The size of one round-robin cycle under `Pooled`: the pool plus the
/// fallback slot (saturating at the integer bound).
pub open spec fn pooled_cycle(pool_size: nat) -> nat {
    if pool_size + 1 <= usize::MAX {
        pool_size + 1
    } else {
        usize::MAX as nat
    }
}

/// Whether a request goes to the fallback provider: never when the fallback
/// is disabled or off; always under `Exclusive`; under `Fallback` exactly
/// when the pool is empty or has no available account; under `Pooled` on the
/// fallback's round-robin slot.
pub open spec fn use_fallback_spec(
    fallback_enabled: bool,
    mode: DispatchMode,
    pool_size: nat,
    primary_has_available: bool,
    rr_counter: nat,
) -> bool {
    if !fallback_enabled {
        false
    } else {
        match mode {
            DispatchMode::Off => false,
            DispatchMode::Exclusive => true,
            DispatchMode::Fallback => pool_size == 0 || !primary_has_available,
            DispatchMode::Pooled => rr_counter % pooled_cycle(pool_size) == 0,
        }
    }
}

/// Decides whether this request is handed to the fallback provider.
pub fn decide_use_fallback(
    fallback_enabled: bool,
    mode: DispatchMode,
    pool_size: usize,
    primary_has_available: bool,
    rr_counter: usize,
) -> (r: bool)
    ensures
        r == use_fallback_spec(
            fallback_enabled,
            mode,
            pool_size as nat,
            primary_has_available,
            rr_counter as nat,
        ),
{
    if !fallback_enabled {
        return false;
    }
    match mode {
        DispatchMode::Off => false,
        DispatchMode::Exclusive => true,
        DispatchMode::Fallback => pool_size == 0 || !primary_has_available,
        DispatchMode::Pooled => {
            let total = if pool_size == usize::MAX {
                usize::MAX
            } else {
                pool_size + 1
            };
            rr_counter % total == 0
        },
    }
}

} // verus!

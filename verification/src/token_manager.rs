//! The account pool: availability per (provider family, model), leases,
//! scheduling with stickiness and penalties, and rate-limit bookkeeping.
//!
//! All bookkeeping is explicit in the current time `now` (seconds since the
//! epoch), which the caller supplies; nothing here reads a clock.
use vstd::prelude::*;

use crate::models::TokenLease;
use crate::sticky_config::{SchedulingMode, StickySessionConfig};
use crate::strutil::{contains_seq, str_contains, str_eq};

verus! {

/// Bound on every timestamp the pool stores (about 126 million years), so
/// that time arithmetic never overflows.
pub const TIME_BOUND: i64 = 4000000000000000;

/// Bound on the clock values callers pass in (and on stored penalty marks).
pub const NOW_BOUND: i64 = 1000000000000000;

/// Longest honored Retry-After, in seconds.
pub const RETRY_AFTER_CAP: u64 = 1000000000000000;

/// How long a validation block lasts, in seconds (ten minutes).
pub const VALIDATION_BLOCK_SECS: i64 = 600;

/// One rate-limit entry: the (family, model) pair it blocks and when it
/// expires.
#[derive(Debug, Clone, PartialEq)]
pub struct RateLimitEntry {
    pub family: String,
    pub model: String,
    pub until: i64,
}

pub struct RateLimitEntryV {
    pub family: Seq<char>,
    pub model: Seq<char>,
    pub until: i64,
}

impl DeepView for RateLimitEntry {
    type V = RateLimitEntryV;

    open spec fn deep_view(&self) -> RateLimitEntryV {
        RateLimitEntryV { family: self.family@, model: self.model@, until: self.until }
    }
}

/// One managed account with its credentials and transient state.
#[derive(Debug, Clone, PartialEq)]
pub struct Account {
    pub id: String,
    pub email: String,
    pub access_token: String,
    pub project_id: String,
    pub failure_count: u32,
    pub rate_limits: Vec<RateLimitEntry>,
    pub validation_block_until: i64,
    pub invalid_grant: bool,
    pub penalty: u32,
    pub penalty_updated_at: i64,
}

pub struct AccountV {
    pub id: Seq<char>,
    pub email: Seq<char>,
    pub access_token: Seq<char>,
    pub project_id: Seq<char>,
    pub failure_count: u32,
    pub rate_limits: Seq<RateLimitEntryV>,
    pub validation_block_until: i64,
    pub invalid_grant: bool,
    pub penalty: u32,
    pub penalty_updated_at: i64,
}

impl DeepView for Account {
    type V = AccountV;

    open spec fn deep_view(&self) -> AccountV {
        AccountV {
            id: self.id@,
            email: self.email@,
            access_token: self.access_token@,
            project_id: self.project_id@,
            failure_count: self.failure_count,
            rate_limits: self.rate_limits.deep_view(),
            validation_block_until: self.validation_block_until,
            invalid_grant: self.invalid_grant,
            penalty: self.penalty,
            penalty_updated_at: self.penalty_updated_at,
        }
    }
}

/// Timestamps of an account stay within the arithmetic bounds.
pub open spec fn account_time_wf(a: AccountV) -> bool {
    &&& -TIME_BOUND <= a.validation_block_until <= TIME_BOUND
    &&& -NOW_BOUND <= a.penalty_updated_at <= NOW_BOUND
    &&& forall|j: int|
        0 <= j < a.rate_limits.len() ==> -TIME_BOUND <= (#[trigger] a.rate_limits[j]).until
            <= TIME_BOUND
}

/// The account holds an unexpired rate-limit entry for (family, model).
pub open spec fn rate_limited(a: AccountV, family: Seq<char>, model: Seq<char>, now: i64) -> bool {
    exists|j: int|
        0 <= j < a.rate_limits.len() && (#[trigger] a.rate_limits[j]).family == family
            && a.rate_limits[j].model == model && a.rate_limits[j].until > now
}

/// The account can serve (family, model) at `now`: no unexpired rate limit,
/// no active validation block, and its grant is intact.
pub open spec fn account_available(a: AccountV, family: Seq<char>, model: Seq<char>, now: i64) -> bool {
    &&& !a.invalid_grant
    &&& a.validation_block_until <= now
    &&& !rate_limited(a, family, model, now)
}

/// The penalty score decayed to `now`: one point per second since the last
/// report.
pub open spec fn effective_penalty(a: AccountV, now: i64) -> int {
    let elapsed = if now >= a.penalty_updated_at {
        now - a.penalty_updated_at
    } else {
        0
    };
    if a.penalty > elapsed {
        a.penalty - elapsed
    } else {
        0
    }
}

impl Account {
    /// A freshly loaded account: no failures, no blocks, no penalties.
    pub fn new(id: String, email: String, access_token: String, project_id: String) -> (a: Account)
        ensures
            a.deep_view().id == id@,
            a.deep_view().email == email@,
            a.deep_view().access_token == access_token@,
            a.deep_view().project_id == project_id@,
            a.deep_view().failure_count == 0,
            a.deep_view().rate_limits.len() == 0,
            a.deep_view().validation_block_until == 0,
            !a.deep_view().invalid_grant,
            a.deep_view().penalty == 0,
            account_time_wf(a.deep_view()),
    {
        Account {
            id,
            email,
            access_token,
            project_id,
            failure_count: 0,
            rate_limits: Vec::new(),
            validation_block_until: 0,
            invalid_grant: false,
            penalty: 0,
            penalty_updated_at: 0,
        }
    }
}

/// The pool with its scheduling configuration, session bindings and the
/// round-robin cursor.
pub struct TokenManager {
    pub accounts: Vec<Account>,
    pub config: StickySessionConfig,
    pub rr_counter: usize,
    pub session_bindings: Vec<(String, String)>,
}

impl TokenManager {
    /// All stored timestamps are within the arithmetic bounds.
    pub open spec fn wf(&self) -> bool {
        forall|i: int|
            0 <= i < self.accounts.deep_view().len() ==> account_time_wf(
                #[trigger] self.accounts.deep_view()[i],
            )
    }

    /// Builds the pool from loaded accounts.
    pub fn new(accounts: Vec<Account>, config: StickySessionConfig) -> (tm: TokenManager)
        requires
            forall|i: int|
                0 <= i < accounts.deep_view().len() ==> account_time_wf(
                    #[trigger] accounts.deep_view()[i],
                ),
        ensures
            tm.accounts.deep_view() == accounts.deep_view(),
            tm.wf(),
    {
        TokenManager { accounts, config, rr_counter: 0, session_bindings: Vec::new() }
    }

    /// Number of loaded accounts.
    pub fn len(&self) -> (n: usize)
        ensures
            n == self.accounts.deep_view().len(),
    {
        self.accounts.len()
    }
}

/// Index of the first account with this email, if any.
pub open spec fn find_by_email(accs: Seq<AccountV>, email: Seq<char>) -> Option<int>
    decreases accs.len(),
{
    if accs.len() == 0 {
        None
    } else if accs[0].email == email {
        Some(0int)
    } else {
        match find_by_email(accs.skip(1), email) {
            Some(i) => Some(i + 1),
            None => None,
        }
    }
}

/// Index of the first account with this id, if any.
pub open spec fn find_by_id(accs: Seq<AccountV>, id: Seq<char>) -> Option<int>
    decreases accs.len(),
{
    if accs.len() == 0 {
        None
    } else if accs[0].id == id {
        Some(0int)
    } else {
        match find_by_id(accs.skip(1), id) {
            Some(i) => Some(i + 1),
            None => None,
        }
    }
}

proof fn lemma_find_by_email_first(accs: Seq<AccountV>, email: Seq<char>, i: int)
    requires
        0 <= i < accs.len(),
        accs[i].email == email,
        forall|k: int| 0 <= k < i ==> (#[trigger] accs[k]).email != email,
    ensures
        find_by_email(accs, email) == Some(i),
    decreases accs.len(),
{
    if i > 0 {
        assert(accs[0].email != email);
        lemma_find_by_email_first(accs.skip(1), email, i - 1);
    }
}

proof fn lemma_find_by_email_none(accs: Seq<AccountV>, email: Seq<char>)
    requires
        forall|k: int| 0 <= k < accs.len() ==> (#[trigger] accs[k]).email != email,
    ensures
        find_by_email(accs, email) is None,
    decreases accs.len(),
{
    if accs.len() > 0 {
        lemma_find_by_email_none(accs.skip(1), email);
    }
}

proof fn lemma_find_by_id_first(accs: Seq<AccountV>, id: Seq<char>, i: int)
    requires
        0 <= i < accs.len(),
        accs[i].id == id,
        forall|k: int| 0 <= k < i ==> (#[trigger] accs[k]).id != id,
    ensures
        find_by_id(accs, id) == Some(i),
    decreases accs.len(),
{
    if i > 0 {
        assert(accs[0].id != id);
        lemma_find_by_id_first(accs.skip(1), id, i - 1);
    }
}

proof fn lemma_find_by_id_none(accs: Seq<AccountV>, id: Seq<char>)
    requires
        forall|k: int| 0 <= k < accs.len() ==> (#[trigger] accs[k]).id != id,
    ensures
        find_by_id(accs, id) is None,
    decreases accs.len(),
{
    if accs.len() > 0 {
        lemma_find_by_id_none(accs.skip(1), id);
    }
}

pub proof fn lemma_find_by_email_valid(accs: Seq<AccountV>, email: Seq<char>)
    ensures
        find_by_email(accs, email) matches Some(i) ==> 0 <= i < accs.len() && accs[i].email
            == email,
    decreases accs.len(),
{
    if accs.len() > 0 {
        lemma_find_by_email_valid(accs.skip(1), email);
    }
}

pub proof fn lemma_find_by_id_valid(accs: Seq<AccountV>, id: Seq<char>)
    ensures
        find_by_id(accs, id) matches Some(i) ==> 0 <= i < accs.len() && accs[i].id == id,
    decreases accs.len(),
{
    if accs.len() > 0 {
        lemma_find_by_id_valid(accs.skip(1), id);
    }
}

/// The id lookup sees only the id fields: pools that agree on ids agree on
/// the lookup.
pub proof fn lemma_find_by_id_same_ids(a: Seq<AccountV>, b: Seq<AccountV>, id: Seq<char>)
    requires
        a.len() == b.len(),
        forall|i: int| 0 <= i < a.len() ==> (#[trigger] a[i]).id == b[i].id,
    ensures
        find_by_id(a, id) == find_by_id(b, id),
    decreases a.len(),
{
    if a.len() > 0 {
        assert(forall|i: int| 0 <= i < a.skip(1).len() ==> (#[trigger] a.skip(1)[i]).id == b.skip(
            1,
        )[i].id);
        lemma_find_by_id_same_ids(a.skip(1), b.skip(1), id);
    }
}

/// The account id the session is bound to, if any binding names it.
pub open spec fn binding_of(bs: Seq<(Seq<char>, Seq<char>)>, sid: Seq<char>) -> Option<Seq<char>>
    decreases bs.len(),
{
    if bs.len() == 0 {
        None
    } else if bs[0].0 == sid {
        Some(bs[0].1)
    } else {
        binding_of(bs.skip(1), sid)
    }
}

/// The index of the account a session sticks to, when the binding exists,
/// the account is in the pool and it qualifies for the request.
pub open spec fn sticky_candidate(
    accs: Seq<AccountV>,
    cfg: crate::sticky_config::StickySessionConfigV,
    bindings: Seq<(Seq<char>, Seq<char>)>,
    sid: Seq<char>,
    family: Seq<char>,
    model: Seq<char>,
    now: i64,
) -> Option<int> {
    match binding_of(bindings, sid) {
        None => None,
        Some(aid) => match find_by_id(accs, aid) {
            None => None,
            Some(bi) => if is_candidate(accs, cfg, bi, family, model, now) {
                Some(bi)
            } else {
                None
            },
        },
    }
}

/// The latest expiry among the account's rate-limit entries for (family,
/// model), floored at `now`.
pub open spec fn latest_matching_until(
    rl: Seq<RateLimitEntryV>,
    family: Seq<char>,
    model: Seq<char>,
    now: i64,
) -> i64
    decreases rl.len(),
{
    if rl.len() == 0 {
        now
    } else {
        let rest = latest_matching_until(rl.drop_last(), family, model, now);
        let e = rl.last();
        if e.family == family && e.model == model && e.until > rest {
            e.until
        } else {
            rest
        }
    }
}

/// What the CacheFirst wait hint must be: under CacheFirst, when the session
/// is bound to a pooled account whose latest matching rate-limit expiry L
/// satisfies now < L <= now + max_wait_seconds, the hint is L - now;
/// in every other situation there is none.
pub open spec fn sticky_wait_of(
    accs: Seq<AccountV>,
    cfg: crate::sticky_config::StickySessionConfigV,
    bindings: Seq<(Seq<char>, Seq<char>)>,
    sid: Seq<char>,
    family: Seq<char>,
    model: Seq<char>,
    now: i64,
) -> Option<u64> {
    if cfg.mode != SchedulingMode::CacheFirst {
        None
    } else {
        match binding_of(bindings, sid) {
            None => None,
            Some(aid) => match find_by_id(accs, aid) {
                None => None,
                Some(i) => {
                    let l = latest_matching_until(accs[i].rate_limits, family, model, now);
                    if l > now && l - now <= cfg.max_wait_seconds {
                        Some((l - now) as u64)
                    } else {
                        None
                    }
                },
            },
        }
    }
}

/// The default rate-limit hold, in seconds, installed for a status when the
/// upstream names no Retry-After: longer for explicit overload, shorter for
/// transient server errors.
pub open spec fn status_default_hold(status: u16) -> u64 {
    if status == 429 {
        60
    } else if status == 529 {
        120
    } else {
        30
    }
}

impl TokenManager {
    fn find_index_by_email(&self, email: &str) -> (r: Option<usize>)
        ensures
            r matches Some(i) ==> Some(i as int) == find_by_email(
                self.accounts.deep_view(),
                email@,
            ),
            r is None ==> find_by_email(self.accounts.deep_view(), email@) is None,
    {
        let n = self.accounts.len();
        let mut i: usize = 0;
        while i < n
            invariant
                n == self.accounts@.len(),
                self.accounts.deep_view().len() == n,
                i <= n,
                forall|k: int| 0 <= k < i ==> (#[trigger] self.accounts.deep_view()[k]).email
                    != email@,
            decreases n - i,
        {
            if str_eq(self.accounts[i].email.as_str(), email) {
                proof {
                    lemma_find_by_email_first(self.accounts.deep_view(), email@, i as int);
                }
                return Some(i);
            }
            i += 1;
        }
        proof {
            lemma_find_by_email_none(self.accounts.deep_view(), email@);
        }
        None
    }

    fn find_index_by_id(&self, id: &str) -> (r: Option<usize>)
        ensures
            r matches Some(i) ==> Some(i as int) == find_by_id(self.accounts.deep_view(), id@),
            r is None ==> find_by_id(self.accounts.deep_view(), id@) is None,
    {
        let n = self.accounts.len();
        let mut i: usize = 0;
        while i < n
            invariant
                n == self.accounts@.len(),
                self.accounts.deep_view().len() == n,
                i <= n,
                forall|k: int| 0 <= k < i ==> (#[trigger] self.accounts.deep_view()[k]).id != id@,
            decreases n - i,
        {
            if str_eq(self.accounts[i].id.as_str(), id) {
                proof {
                    lemma_find_by_id_first(self.accounts.deep_view(), id@, i as int);
                }
                return Some(i);
            }
            i += 1;
        }
        proof {
            lemma_find_by_id_none(self.accounts.deep_view(), id@);
        }
        None
    }

    /// Installs a rate limit on the account with this email, for the model's
    /// family and the model, expiring at `now` plus the larger of the
    /// status's default hold and the honored Retry-After. The account then
    /// stays unavailable for that pair at least until the expiry.
    pub fn mark_rate_limited(
        &mut self,
        email: &str,
        status: u16,
        retry_after_secs: Option<u64>,
        model: &str,
        family: &str,
        now: i64,
    )
        requires
            old(self).wf(),
            -NOW_BOUND <= now <= NOW_BOUND,
        ensures
            final(self).wf(),
            final(self).accounts.deep_view().len() == old(self).accounts.deep_view().len(),
            final(self).config == old(self).config,
            ({
                let accs = old(self).accounts.deep_view();
                match find_by_email(accs, email@) {
                    None => final(self).accounts.deep_view() == accs,
                    Some(i) => {
                        let hold = ({
                            let ra = match retry_after_secs {
                                Some(h) => if h <= RETRY_AFTER_CAP {
                                    h
                                } else {
                                    RETRY_AFTER_CAP
                                },
                                None => 0,
                            };
                            if status_default_hold(status) >= ra {
                                status_default_hold(status)
                            } else {
                                ra
                            }
                        });
                        &&& final(self).accounts.deep_view() == accs.update(
                            i,
                            AccountV {
                                rate_limits: accs[i].rate_limits.push(
                                    RateLimitEntryV {
                                        family: family@,
                                        model: model@,
                                        until: (now + hold) as i64,
                                    },
                                ),
                                ..accs[i]
                            },
                        )
                        &&& forall|t: i64|
                            now <= t < now + hold ==> !account_available(
                                final(self).accounts.deep_view()[i],
                                family@,
                                model@,
                                t,
                            )
                    },
                }
            }),
    {
        let idx = match self.find_index_by_email(email) {
            Some(i) => i,
            None => {
                return ;
            },
        };
        proof {
            lemma_find_by_email_valid(self.accounts.deep_view(), email@);
        }
        let ra: u64 = match retry_after_secs {
            Some(h) => if h <= RETRY_AFTER_CAP {
                h
            } else {
                RETRY_AFTER_CAP
            },
            None => 0,
        };
        let default_hold: u64 = if status == 429 {
            60
        } else if status == 529 {
            120
        } else {
            30
        };
        let hold: u64 = if default_hold >= ra {
            default_hold
        } else {
            ra
        };
        let until: i64 = now + (hold as i64);
        let ghost accs0 = self.accounts.deep_view();
        let mut a = self.accounts.remove(idx);
        let ghost arl0 = a.deep_view().rate_limits;
        a.rate_limits.push(RateLimitEntry { family: String::from_str(family), model: String::from_str(model), until });
        proof {
            assert(a.deep_view().rate_limits =~= arl0.push(
                RateLimitEntryV { family: family@, model: model@, until: until },
            ));
        }
        let ghost av = a.deep_view();
        self.accounts.insert(idx, a);
        proof {
            assert(self.accounts.deep_view() =~= accs0.update(idx as int, av));
            let i = idx as int;
            let fa = self.accounts.deep_view()[i];
            let nj = fa.rate_limits.len() - 1;
            assert(fa.rate_limits[nj].until == until);
            assert forall|t: i64| now <= t < now + hold implies !account_available(
                fa,
                family@,
                model@,
                t,
            ) by {
                assert(fa.rate_limits[nj].family == family@ && fa.rate_limits[nj].model == model@
                    && fa.rate_limits[nj].until > t);
            }
            assert(account_time_wf(av));
            assert forall|k: int| 0 <= k < final(self).accounts.deep_view().len() implies
                account_time_wf(#[trigger] final(self).accounts.deep_view()[k]) by {
                if k != i {
                    assert(final(self).accounts.deep_view()[k] == accs0[k]);
                }
            }
        }
    }

    /// Clears the transient failure state of the account with this email:
    /// rate limits for the model (all of them when no model is named) are
    /// dropped and the failure counter resets.
    pub fn mark_account_success(&mut self, email: &str, model: Option<&str>)
        requires
            old(self).wf(),
        ensures
            final(self).wf(),
            final(self).accounts.deep_view().len() == old(self).accounts.deep_view().len(),
            ({
                let accs = old(self).accounts.deep_view();
                match find_by_email(accs, email@) {
                    None => final(self).accounts.deep_view() == accs,
                    Some(i) => {
                        &&& final(self).accounts.deep_view()[i].failure_count == 0
                        &&& final(self).accounts.deep_view()[i].email == accs[i].email
                        &&& final(self).accounts.deep_view()[i].id == accs[i].id
                        &&& (model matches Some(m) ==> forall|j: int|
                            0 <= j < final(self).accounts.deep_view()[i].rate_limits.len()
                                ==> (#[trigger] final(self).accounts.deep_view()[i].rate_limits[
                                j
                            ]).model != m@)
                        &&& (model is None ==> final(self).accounts.deep_view()[i].rate_limits.len()
                            == 0)
                        &&& forall|k: int|
                            0 <= k < accs.len() && k != i ==> final(self).accounts.deep_view()[k]
                                == accs[k]
                    },
                }
            }),
    {
        let idx = match self.find_index_by_email(email) {
            Some(i) => i,
            None => {
                return ;
            },
        };
        proof {
            lemma_find_by_email_valid(self.accounts.deep_view(), email@);
        }
        let ghost accs0 = self.accounts.deep_view();
        let mut a = self.accounts.remove(idx);
        a.failure_count = 0;
        match model {
            Some(m) => {
                let ghost rl0 = a.deep_view().rate_limits;
                let mut kept: Vec<RateLimitEntry> = Vec::new();
                let mut rest = a.rate_limits;
                proof {
                    assert(account_time_wf(accs0[idx as int]));
                    assert(a.deep_view().rate_limits == accs0[idx as int].rate_limits);
                    assert(forall|j: int| 0 <= j < rest.deep_view().len()
                        ==> rest.deep_view()[j] == rl0[j]);
                }
                while rest.len() > 0
                    invariant
                        kept.deep_view().len() + rest.deep_view().len() <= rl0.len(),
                        forall|j: int| 0 <= j < kept.deep_view().len() ==> (
                        #[trigger] kept.deep_view()[j]).model != m@,
                        forall|j: int| 0 <= j < kept.deep_view().len() ==> -TIME_BOUND <= (
                        #[trigger] kept.deep_view()[j]).until <= TIME_BOUND,
                        forall|j: int| 0 <= j < rest.deep_view().len() ==> -TIME_BOUND <= (
                        #[trigger] rest.deep_view()[j]).until <= TIME_BOUND,
                    decreases rest.len(),
                {
                    let ghost rest0 = rest.deep_view();
                    let ghost kept0 = kept.deep_view();
                    let e = rest.remove(0);
                    proof {
                        assert(rest.deep_view() =~= rest0.skip(1));
                        assert(e.deep_view() == rest0[0]);
                    }
                    if !str_eq(e.model.as_str(), m) {
                        let ghost ev = e.deep_view();
                        kept.push(e);
                        proof {
                            assert(kept.deep_view() =~= kept0.push(ev));
                        }
                    }
                }
                a.rate_limits = kept;
                proof {
                    assert(account_time_wf(a.deep_view()));
                }
            },
            None => {
                a.rate_limits = Vec::new();
            },
        }
        let ghost av = a.deep_view();
        self.accounts.insert(idx, a);
        proof {
            assert(self.accounts.deep_view() =~= accs0.update(idx as int, av));
            assert(account_time_wf(av));
            assert forall|k: int| 0 <= k < final(self).accounts.deep_view().len() implies
                account_time_wf(#[trigger] final(self).accounts.deep_view()[k]) by {
                if k != idx as int {
                    assert(final(self).accounts.deep_view()[k] == accs0[k]);
                }
            }
        }
    }

    /// Counts one failure on the account with this id; a 401 whose body names
    /// `invalid_grant` marks the grant invalid, which takes the account out
    /// of service until external repair.
    pub fn report_account_failure(&mut self, account_id: &str, status: u16, error_text: &str)
        requires
            old(self).wf(),
        ensures
            final(self).wf(),
            final(self).accounts.deep_view().len() == old(self).accounts.deep_view().len(),
            ({
                let accs = old(self).accounts.deep_view();
                match find_by_id(accs, account_id@) {
                    None => final(self).accounts.deep_view() == accs,
                    Some(i) => final(self).accounts.deep_view() == accs.update(
                        i,
                        AccountV {
                            failure_count: if accs[i].failure_count < 0xffff_ffff {
                                (accs[i].failure_count + 1) as u32
                            } else {
                                accs[i].failure_count
                            },
                            invalid_grant: accs[i].invalid_grant || (status == 401 && contains_seq(
                                error_text@,
                                "invalid_grant"@,
                            )),
                            ..accs[i]
                        },
                    ),
                }
            }),
    {
        let idx = match self.find_index_by_id(account_id) {
            Some(i) => i,
            None => {
                return ;
            },
        };
        proof {
            lemma_find_by_id_valid(self.accounts.deep_view(), account_id@);
        }
        let ghost accs0 = self.accounts.deep_view();
        let mut a = self.accounts.remove(idx);
        if a.failure_count < 0xffff_ffff {
            a.failure_count += 1;
        }
        if status == 401 && str_contains(error_text, "invalid_grant") {
            a.invalid_grant = true;
        }
        let ghost av = a.deep_view();
        self.accounts.insert(idx, a);
        proof {
            assert(self.accounts.deep_view() =~= accs0.update(idx as int, av));
            assert forall|k: int| 0 <= k < final(self).accounts.deep_view().len() implies
                account_time_wf(#[trigger] final(self).accounts.deep_view()[k]) by {
                if k != idx as int {
                    assert(final(self).accounts.deep_view()[k] == accs0[k]);
                }
            }
        }
    }

    /// Adds the fixed penalty to the account's decayed score; the score is
    /// the scheduling tiebreak.
    pub fn report_429_penalty(&mut self, account_id: &str, now: i64)
        requires
            old(self).wf(),
            -NOW_BOUND <= now <= NOW_BOUND,
        ensures
            final(self).wf(),
            final(self).accounts.deep_view().len() == old(self).accounts.deep_view().len(),
            ({
                let accs = old(self).accounts.deep_view();
                match find_by_id(accs, account_id@) {
                    None => final(self).accounts.deep_view() == accs,
                    Some(i) => {
                        &&& final(self).accounts.deep_view() == accs.update(
                            i,
                            AccountV {
                                penalty: final(self).accounts.deep_view()[i].penalty,
                                penalty_updated_at: now,
                                ..accs[i]
                            },
                        )
                        &&& final(self).accounts.deep_view()[i].penalty == if effective_penalty(
                            accs[i],
                            now,
                        ) + 100 <= u32::MAX {
                            effective_penalty(accs[i], now) + 100
                        } else {
                            u32::MAX as int
                        }
                    },
                }
            }),
    {
        let idx = match self.find_index_by_id(account_id) {
            Some(i) => i,
            None => {
                return ;
            },
        };
        proof {
            lemma_find_by_id_valid(self.accounts.deep_view(), account_id@);
        }
        let ghost accs0 = self.accounts.deep_view();
        let mut a = self.accounts.remove(idx);
        let elapsed_i: i64 = if now >= a.penalty_updated_at {
            now - a.penalty_updated_at
        } else {
            0
        };
        let decayed: u32 = if elapsed_i >= a.penalty as i64 {
            0
        } else {
            a.penalty - (elapsed_i as u32)
        };
        a.penalty = if decayed <= u32::MAX - 100 {
            decayed + 100
        } else {
            u32::MAX
        };
        a.penalty_updated_at = now;
        let ghost av = a.deep_view();
        self.accounts.insert(idx, a);
        proof {
            assert(self.accounts.deep_view() =~= accs0.update(idx as int, av));
            assert forall|k: int| 0 <= k < final(self).accounts.deep_view().len() implies
                account_time_wf(#[trigger] final(self).accounts.deep_view()[k]) by {
                if k != idx as int {
                    assert(final(self).accounts.deep_view()[k] == accs0[k]);
                }
            }
        }
    }

    /// Records a hard validation block on the account until `until_ts`.
    /// Fails when no account carries the id.
    pub fn set_validation_block_public(&mut self, account_id: &str, until_ts: i64) -> (r: Result<
        (),
        String,
    >)
        requires
            old(self).wf(),
            -TIME_BOUND <= until_ts <= TIME_BOUND,
        ensures
            final(self).wf(),
            final(self).accounts.deep_view().len() == old(self).accounts.deep_view().len(),
            ({
                let accs = old(self).accounts.deep_view();
                match find_by_id(accs, account_id@) {
                    None => r is Err && final(self).accounts.deep_view() == accs,
                    Some(i) => r is Ok && final(self).accounts.deep_view() == accs.update(
                        i,
                        AccountV { validation_block_until: until_ts, ..accs[i] },
                    ),
                }
            }),
    {
        let idx = match self.find_index_by_id(account_id) {
            Some(i) => i,
            None => {
                return Err(String::from_str("account not found"));
            },
        };
        proof {
            lemma_find_by_id_valid(self.accounts.deep_view(), account_id@);
        }
        let ghost accs0 = self.accounts.deep_view();
        let mut a = self.accounts.remove(idx);
        a.validation_block_until = until_ts;
        let ghost av = a.deep_view();
        self.accounts.insert(idx, a);
        proof {
            assert(self.accounts.deep_view() =~= accs0.update(idx as int, av));
            assert forall|k: int| 0 <= k < final(self).accounts.deep_view().len() implies
                account_time_wf(#[trigger] final(self).accounts.deep_view()[k]) by {
                if k != idx as int {
                    assert(final(self).accounts.deep_view()[k] == accs0[k]);
                }
            }
        }
        Ok(())
    }

    /// Whether any account can serve (family, model) at `now`.
    pub fn has_available_account(&self, family: &str, model: &str, now: i64) -> (r: bool)
        ensures
            r == exists|i: int|
                0 <= i < self.accounts.deep_view().len() && account_available(
                    #[trigger] self.accounts.deep_view()[i],
                    family@,
                    model@,
                    now,
                ),
    {
        let n = self.accounts.len();
        let mut i: usize = 0;
        while i < n
            invariant
                n == self.accounts@.len(),
                self.accounts.deep_view().len() == n,
                i <= n,
                forall|k: int| 0 <= k < i ==> !account_available(
                    #[trigger] self.accounts.deep_view()[k],
                    family@,
                    model@,
                    now,
                ),
            decreases n - i,
        {
            if self.account_available_at(i, family, model, now) {
                return true;
            }
            i += 1;
        }
        false
    }

    /// Whether the account at `idx` can serve (family, model) at `now`.
    fn account_available_at(&self, idx: usize, family: &str, model: &str, now: i64) -> (r: bool)
        requires
            idx < self.accounts@.len(),
        ensures
            r == account_available(self.accounts.deep_view()[idx as int], family@, model@, now),
    {
        let a = &self.accounts[idx];
        let ghost av = self.accounts.deep_view()[idx as int];
        if a.invalid_grant {
            return false;
        }
        if a.validation_block_until > now {
            return false;
        }
        let rn = a.rate_limits.len();
        let mut j: usize = 0;
        while j < rn
            invariant
                rn == a.rate_limits@.len(),
                av == a.deep_view(),
                idx < self.accounts@.len(),
                av == self.accounts.deep_view()[idx as int],
                !av.invalid_grant,
                av.validation_block_until <= now,
                av.rate_limits.len() == rn,
                j <= rn,
                forall|k: int| 0 <= k < j ==> !((#[trigger] av.rate_limits[k]).family == family@
                    && av.rate_limits[k].model == model@ && av.rate_limits[k].until > now),
            decreases rn - j,
        {
            let e = &a.rate_limits[j];
            proof {
                assert(av.rate_limits[j as int] == e.deep_view());
            }
            if str_eq(e.family.as_str(), family) && str_eq(e.model.as_str(), model) && e.until
                > now {
                proof {
                    assert(av.rate_limits[j as int].family == family@ && av.rate_limits[
                        j as int
                    ].model == model@ && av.rate_limits[j as int].until > now);
                    assert(rate_limited(av, family@, model@, now));
                }
                return false;
            }
            j += 1;
        }
        proof {
            assert(!rate_limited(av, family@, model@, now));
        }
        true
    }
}

/// Membership in a list of strings.
pub open spec fn in_str_list(xs: Seq<Seq<char>>, x: Seq<char>) -> bool {
    exists|i: int| 0 <= i < xs.len() && xs[i] == x
}

/// The model whitelist of an account id, if an entry names it.
pub open spec fn lookup_models(sm: Seq<(Seq<char>, Seq<Seq<char>>)>, id: Seq<char>) -> Option<
    Seq<Seq<char>>,
>
    decreases sm.len(),
{
    if sm.len() == 0 {
        None
    } else if sm[0].0 == id {
        Some(sm[0].1)
    } else {
        lookup_models(sm.skip(1), id)
    }
}

/// Under `Selected`, whether this account may serve this model: no entry or
/// an empty entry admits every model.
pub open spec fn selected_models_allow(
    sm: Seq<(Seq<char>, Seq<Seq<char>>)>,
    id: Seq<char>,
    model: Seq<char>,
) -> bool {
    match lookup_models(sm, id) {
        None => true,
        Some(list) => list.len() == 0 || in_str_list(list, model),
    }
}

/// The scheduling mode admits this account for this model: `Selected`
/// restricts to the configured accounts and their whitelists, the other
/// modes admit every account.
pub open spec fn mode_allows(
    cfg: crate::sticky_config::StickySessionConfigV,
    a: AccountV,
    model: Seq<char>,
) -> bool {
    cfg.mode != SchedulingMode::Selected || (in_str_list(cfg.selected_accounts, a.id)
        && selected_models_allow(cfg.selected_models, a.id, model))
}

/// The account at index `i` can serve the request now under the active
/// configuration.
pub open spec fn is_candidate(
    accs: Seq<AccountV>,
    cfg: crate::sticky_config::StickySessionConfigV,
    i: int,
    family: Seq<char>,
    model: Seq<char>,
    now: i64,
) -> bool {
    &&& 0 <= i < accs.len()
    &&& account_available(accs[i], family, model, now)
    &&& mode_allows(cfg, accs[i], model)
}

/// The candidate indices among the first `n` accounts, in pool order.
pub open spec fn candidates_upto(
    accs: Seq<AccountV>,
    cfg: crate::sticky_config::StickySessionConfigV,
    family: Seq<char>,
    model: Seq<char>,
    now: i64,
    n: int,
) -> Seq<int>
    decreases n,
{
    if n <= 0 {
        Seq::empty()
    } else {
        let rest = candidates_upto(accs, cfg, family, model, now, n - 1);
        if is_candidate(accs, cfg, n - 1, family, model, now) {
            rest.push(n - 1)
        } else {
            rest
        }
    }
}

/// The pool index of the account a session is bound to, if the binding
/// exists and names a pooled account.
pub open spec fn bound_index(
    accs: Seq<AccountV>,
    bindings: Seq<(Seq<char>, Seq<char>)>,
    sid: Seq<char>,
) -> Option<int> {
    match binding_of(bindings, sid) {
        None => None,
        Some(aid) => find_by_id(accs, aid),
    }
}

fn string_list_contains(v: &Vec<String>, x: &str) -> (r: bool)
    ensures
        r == in_str_list(v.deep_view(), x@),
{
    let n = v.len();
    let mut i: usize = 0;
    while i < n
        invariant
            n == v@.len(),
            v.deep_view().len() == n,
            i <= n,
            forall|k: int| 0 <= k < i ==> (#[trigger] v.deep_view()[k]) != x@,
        decreases n - i,
    {
        proof {
            assert(v.deep_view()[i as int] == v@[i as int]@);
        }
        if str_eq(v[i].as_str(), x) {
            return true;
        }
        i += 1;
    }
    false
}

fn selected_models_allow_exec(sm: &Vec<(String, Vec<String>)>, id: &str, model: &str) -> (r: bool)
    ensures
        r == selected_models_allow(sm.deep_view(), id@, model@),
{
    let n = sm.len();
    let mut i: usize = 0;
    proof {
        assert(sm.deep_view().skip(0) =~= sm.deep_view());
    }
    while i < n
        invariant
            n == sm@.len(),
            sm.deep_view().len() == n,
            i <= n,
            lookup_models(sm.deep_view(), id@) == lookup_models(
                sm.deep_view().skip(i as int),
                id@,
            ),
        decreases n - i,
    {
        proof {
            assert(sm.deep_view()[i as int] == (sm@[i as int].0@, sm@[i as int].1.deep_view()));
            assert(sm.deep_view().skip(i as int)[0] == sm.deep_view()[i as int]);
            assert(sm.deep_view().skip(i as int).skip(1) =~= sm.deep_view().skip(i + 1));
        }
        if str_eq(sm[i].0.as_str(), id) {
            return sm[i].1.len() == 0 || string_list_contains(&sm[i].1, model);
        }
        i += 1;
    }
    proof {
        assert(sm.deep_view().skip(n as int) =~= Seq::<(Seq<char>, Seq<Seq<char>>)>::empty());
    }
    true
}

impl TokenManager {
    fn effective_penalty_at(&self, idx: usize, now: i64) -> (p: u32)
        requires
            idx < self.accounts@.len(),
            self.wf(),
            -NOW_BOUND <= now <= NOW_BOUND,
        ensures
            p == effective_penalty(self.accounts.deep_view()[idx as int], now),
    {
        let a = &self.accounts[idx];
        proof {
            assert(account_time_wf(self.accounts.deep_view()[idx as int]));
        }
        let elapsed_i: i64 = if now >= a.penalty_updated_at {
            now - a.penalty_updated_at
        } else {
            0
        };
        if elapsed_i >= a.penalty as i64 {
            0
        } else {
            a.penalty - (elapsed_i as u32)
        }
    }

    fn bound_account(&self, session_id: &str) -> (r: Option<usize>)
        ensures
            ({
                let b = binding_of(self.session_bindings.deep_view(), session_id@);
                match b {
                    None => r is None,
                    Some(aid) => match find_by_id(self.accounts.deep_view(), aid) {
                        None => r is None,
                        Some(j) => r matches Some(i) && i as int == j,
                    },
                }
            }),
            r matches Some(i) ==> i < self.accounts@.len(),
    {
        let bn = self.session_bindings.len();
        let mut i: usize = 0;
        proof {
            assert(self.session_bindings.deep_view().skip(0) =~= self.session_bindings.deep_view());
        }
        while i < bn
            invariant
                bn == self.session_bindings@.len(),
                self.session_bindings.deep_view().len() == bn,
                i <= bn,
                binding_of(self.session_bindings.deep_view(), session_id@) == binding_of(
                    self.session_bindings.deep_view().skip(i as int),
                    session_id@,
                ),
            decreases bn - i,
        {
            proof {
                assert(self.session_bindings.deep_view()[i as int] == (self.session_bindings@[
                    i as int
                ].0@, self.session_bindings@[i as int].1@));
                assert(self.session_bindings.deep_view().skip(i as int)[0]
                    == self.session_bindings.deep_view()[i as int]);
                assert(self.session_bindings.deep_view().skip(i as int).skip(1)
                    =~= self.session_bindings.deep_view().skip(i + 1));
            }
            if str_eq(self.session_bindings[i].0.as_str(), session_id) {
                let r = self.find_index_by_id(self.session_bindings[i].1.as_str());
                proof {
                    if r is Some {
                        lemma_find_by_id_valid(self.accounts.deep_view(), self.session_bindings@[
                            i as int
                        ].1@);
                    }
                }
                return r;
            }
            i += 1;
        }
        proof {
            assert(self.session_bindings.deep_view().skip(bn as int) =~= Seq::<(
                Seq<char>,
                Seq<char>,
            )>::empty());
        }
        None
    }

    fn bind_session(&mut self, session_id: &str, account_id: &str)
        ensures
            final(self).accounts == old(self).accounts,
            final(self).config == old(self).config,
            final(self).rr_counter == old(self).rr_counter,
    {
        let bn = self.session_bindings.len();
        let mut i: usize = 0;
        while i < bn
            invariant
                bn == self.session_bindings@.len(),
                i <= bn,
                self.accounts == old(self).accounts,
                self.config == old(self).config,
                self.rr_counter == old(self).rr_counter,
            decreases bn - i,
        {
            if str_eq(self.session_bindings[i].0.as_str(), session_id) {
                let _ = self.session_bindings.remove(i);
                self.session_bindings.push(
                    (String::from_str(session_id), String::from_str(account_id)),
                );
                return ;
            }
            i += 1;
        }
        self.session_bindings.push((String::from_str(session_id), String::from_str(account_id)));
    }

    /// Under `CacheFirst`, how many seconds a caller should wait for the
    /// session's sticky account to clear its rate limit before considering
    /// other accounts: exactly `sticky_wait_of`. After waiting the hinted
    /// time the account is no longer rate-limited for the pair.
    pub fn sticky_wait_hint(
        &self,
        session_id: &str,
        family: &str,
        model: &str,
        now: i64,
    ) -> (r: Option<u64>)
        requires
            self.wf(),
            -NOW_BOUND <= now <= NOW_BOUND,
        ensures
            r == sticky_wait_of(
                self.accounts.deep_view(),
                self.config.deep_view(),
                self.session_bindings.deep_view(),
                session_id@,
                family@,
                model@,
                now,
            ),
            r matches Some(w) ==> {
                &&& w <= self.config.max_wait_seconds
                &&& exists|i: int|
                    0 <= i < self.accounts.deep_view().len() && !rate_limited(
                        #[trigger] self.accounts.deep_view()[i],
                        family@,
                        model@,
                        (now + w) as i64,
                    )
            },
    {
        match self.config.mode {
            SchedulingMode::CacheFirst => {},
            _ => {
                return None;
            },
        }
        let idx = match self.bound_account(session_id) {
            Some(i) => i,
            None => {
                return None;
            },
        };
        proof {
            assert(account_time_wf(self.accounts.deep_view()[idx as int]));
        }
        let a = &self.accounts[idx];
        let ghost av = self.accounts.deep_view()[idx as int];
        let rn = a.rate_limits.len();
        let mut latest: i64 = now;
        let mut j: usize = 0;
        proof {
            assert(av.rate_limits.take(0) =~= Seq::<RateLimitEntryV>::empty());
        }
        while j < rn
            invariant
                rn == a.rate_limits@.len(),
                av == a.deep_view(),
                av.rate_limits.len() == rn,
                j <= rn,
                latest == latest_matching_until(
                    av.rate_limits.take(j as int),
                    family@,
                    model@,
                    now,
                ),
                latest >= now,
                latest <= TIME_BOUND || latest == now,
                forall|k: int| 0 <= k < j ==> ((#[trigger] av.rate_limits[k]).family == family@
                    && av.rate_limits[k].model == model@ ==> av.rate_limits[k].until <= latest),
                account_time_wf(av),
            decreases rn - j,
        {
            let e = &a.rate_limits[j];
            proof {
                assert(av.rate_limits[j as int] == e.deep_view());
                assert(av.rate_limits.take(j + 1).drop_last() =~= av.rate_limits.take(j as int));
                assert(av.rate_limits.take(j + 1).last() == av.rate_limits[j as int]);
            }
            if str_eq(e.family.as_str(), family) && str_eq(e.model.as_str(), model) && e.until
                > latest {
                latest = e.until;
            }
            j += 1;
        }
        proof {
            assert(av.rate_limits.take(rn as int) =~= av.rate_limits);
        }
        if latest <= now {
            return None;
        }
        let wait: i64 = latest - now;
        if (wait as u64) <= self.config.max_wait_seconds {
            proof {
                assert(!rate_limited(av, family@, model@, latest));
            }
            Some(wait as u64)
        } else {
            None
        }
    }

    /// Selects an account for (the family of) `model` under the active
    /// scheduling configuration and returns a fresh lease for it. The lease's
    /// account is available for the pair at call time; an error comes back
    /// exactly when no account qualifies. The account pool itself is not
    /// changed, only the session binding and the round-robin cursor move.
    pub fn get_token(
        &mut self,
        request_type: &str,
        force_rotate: bool,
        session_id: Option<&str>,
        model: &str,
        now: i64,
    ) -> (r: Result<TokenLease, String>)
        requires
            old(self).wf(),
            -NOW_BOUND <= now <= NOW_BOUND,
        ensures
            final(self).wf(),
            final(self).accounts == old(self).accounts,
            final(self).config == old(self).config,
            ({
                let accs = old(self).accounts.deep_view();
                let cfg = old(self).config.deep_view();
                let family = crate::model_mapping::family_of(model@);
                &&& (r matches Ok(l) ==> exists|i: int|
                    {
                        &&& #[trigger] is_candidate(accs, cfg, i, family, model@, now)
                        &&& l.deep_view().account_id == accs[i].id
                        &&& l.deep_view().email == accs[i].email
                        &&& l.deep_view().access_token == accs[i].access_token
                        &&& l.deep_view().project_id == accs[i].project_id
                    })
                &&& (r is Err <==> !exists|i: int|
                    #[trigger] is_candidate(accs, cfg, i, family, model@, now))
                &&& (r matches Err(e) ==> if exists|i: int|
                    0 <= i < accs.len() && (#[trigger] accs[i]).invalid_grant {
                    e@ == "no available accounts: invalid_grant"@
                } else {
                    e@ == "no available accounts"@
                })
                &&& (match session_id {
                    Some(sid) => (!force_rotate && cfg.mode != SchedulingMode::PerformanceFirst)
                        ==> (match sticky_candidate(
                        accs,
                        cfg,
                        old(self).session_bindings.deep_view(),
                        sid@,
                        family,
                        model@,
                        now,
                    ) {
                        Some(bi) => r matches Ok(l) && l.deep_view().account_id == accs[bi].id,
                        None => true,
                    }),
                    None => true,
                })
                &&& (cfg.mode == SchedulingMode::PerformanceFirst ==> ({
                    let cl = candidates_upto(accs, cfg, family, model@, now, accs.len() as int);
                    cl.len() > 0 ==> (r matches Ok(l) && l.deep_view().account_id == accs[cl[(
                    old(self).rr_counter as int) % (cl.len() as int)]].id)
                }))
                &&& (cfg.mode != SchedulingMode::PerformanceFirst ==> ({
                    let avoid = if force_rotate {
                        match session_id {
                            Some(sid) => bound_index(
                                accs,
                                old(self).session_bindings.deep_view(),
                                sid@,
                            ),
                            None => None,
                        }
                    } else {
                        None
                    };
                    let sticky_hit = !force_rotate && (match session_id {
                        Some(sid) => sticky_candidate(
                            accs,
                            cfg,
                            old(self).session_bindings.deep_view(),
                            sid@,
                            family,
                            model@,
                            now,
                        ) is Some,
                        None => false,
                    });
                    !sticky_hit ==> (r matches Ok(l) ==> exists|i: int|
                        {
                            &&& #[trigger] is_candidate(accs, cfg, i, family, model@, now)
                            &&& l.deep_view().account_id == accs[i].id
                            &&& (match avoid {
                                Some(av) => (exists|j: int|
                                    #[trigger] is_candidate(accs, cfg, j, family, model@, now)
                                        && j != av) ==> (i != av && forall|j: int|
                                    (#[trigger] is_candidate(accs, cfg, j, family, model@, now)
                                        && j != av) ==> effective_penalty(accs[i], now)
                                        <= effective_penalty(accs[j], now)),
                                None => forall|j: int|
                                    #[trigger] is_candidate(accs, cfg, j, family, model@, now)
                                        ==> effective_penalty(accs[i], now) <= effective_penalty(
                                        accs[j],
                                        now,
                                    ),
                            })
                        })
                }))
            }),
    {
        let ghost accs = self.accounts.deep_view();
        let ghost cfg = self.config.deep_view();
        let family = crate::model_mapping::model_family(model);
        let n = self.accounts.len();
        let selected = match self.config.mode {
            SchedulingMode::Selected => true,
            _ => false,
        };
        let mut cands: Vec<usize> = Vec::new();
        let mut i: usize = 0;
        proof {
            assert(candidates_upto(accs, cfg, family@, model@, now, 0) =~= Seq::<int>::empty());
        }
        while i < n
            invariant
                n == self.accounts@.len(),
                accs == self.accounts.deep_view(),
                cfg == self.config.deep_view(),
                accs.len() == n,
                family@ == crate::model_mapping::family_of(model@),
                selected == (cfg.mode == SchedulingMode::Selected),
                i <= n,
                cands@.len() == candidates_upto(accs, cfg, family@, model@, now, i as int).len(),
                forall|k: int| 0 <= k < cands@.len() ==> (#[trigger] cands@[k]) as int
                    == candidates_upto(accs, cfg, family@, model@, now, i as int)[k],
                forall|k: int| 0 <= k < cands@.len() ==> (#[trigger] cands@[k]) < i,
                forall|k: int| 0 <= k < cands@.len() ==> is_candidate(
                    accs,
                    cfg,
                    #[trigger] cands@[k] as int,
                    family@,
                    model@,
                    now,
                ),
                forall|j: int| 0 <= j < i && is_candidate(accs, cfg, j, family@, model@, now)
                    ==> exists|k: int| 0 <= k < cands@.len() && #[trigger] cands@[k] == j,
            decreases n - i,
        {
            let avail = self.account_available_at(i, family.as_str(), model, now);
            let allowed = if selected {
                string_list_contains(&self.config.selected_accounts, self.accounts[i].id.as_str())
                    && selected_models_allow_exec(
                    &self.config.selected_models,
                    self.accounts[i].id.as_str(),
                    model,
                )
            } else {
                true
            };
            proof {
                assert(self.accounts.deep_view()[i as int].id == self.accounts@[i as int].id@);
                assert(cfg.selected_accounts == self.config.selected_accounts.deep_view());
                assert(cfg.selected_models == self.config.selected_models.deep_view());
            }
            if avail && allowed {
                let ghost cands0 = cands@;
                cands.push(i);
                proof {
                    assert(cands@ =~= cands0.push(i));
                    assert forall|j: int| 0 <= j < i + 1 && is_candidate(
                        accs,
                        cfg,
                        j,
                        family@,
                        model@,
                        now,
                    ) implies exists|k: int| 0 <= k < cands@.len() && #[trigger] cands@[k] == j by {
                        if j < i {
                            let k0 = choose|k0: int| 0 <= k0 < cands0.len() && cands0[k0] == j;
                            assert(cands@[k0] == j);
                        } else {
                            assert(cands@[cands@.len() - 1] == j);
                        }
                    }
                }
            }
            i += 1;
        }
        if cands.len() == 0 {
            proof {
                assert forall|j: int| !is_candidate(accs, cfg, j, family@, model@, now) by {
                    if 0 <= j < n {
                        assert(!(exists|k: int| 0 <= k < cands@.len() && #[trigger] cands@[k] == j));
                    }
                }
            }
            let mut any_invalid = false;
            let mut k: usize = 0;
            while k < n
                invariant
                    n == self.accounts@.len(),
                    accs == self.accounts.deep_view(),
                    accs.len() == n,
                    k <= n,
                    any_invalid == exists|i: int|
                        0 <= i < k && (#[trigger] accs[i]).invalid_grant,
                decreases n - k,
            {
                let hit = self.accounts[k].invalid_grant;
                proof {
                    assert(hit == accs[k as int].invalid_grant);
                }
                if hit {
                    any_invalid = true;
                }
                k += 1;
            }
            if any_invalid {
                return Err(String::from_str("no available accounts: invalid_grant"));
            }
            return Err(String::from_str("no available accounts"));
        }
        // Sticky preference: outside PerformanceFirst, an existing session
        // binding wins while its account still qualifies.
        let ghost cl = candidates_upto(accs, cfg, family@, model@, now, accs.len() as int);
        let ghost bidx = match session_id {
            Some(sid) => bound_index(accs, old(self).session_bindings.deep_view(), sid@),
            None => None,
        };
        let rotate_rr = match self.config.mode {
            SchedulingMode::PerformanceFirst => true,
            _ => false,
        };
        let mut sticky: Option<usize> = None;
        if !rotate_rr {
            if let Some(sid) = session_id {
                sticky = self.bound_account(sid);
            }
        }
        proof {
            if !rotate_rr {
                assert(match sticky {
                    Some(si) => bidx == Some(si as int),
                    None => session_id is None || bidx is None,
                });
            }
        }
        let cn = cands.len();
        let mut chosen: usize = cands[0];
        proof {
            assert(is_candidate(accs, cfg, cands@[0] as int, family@, model@, now));
        }
        let mut decided = false;
        if !force_rotate {
            if let Some(si) = sticky {
                let mut k: usize = 0;
                while k < cn
                    invariant
                        cn == cands@.len(),
                        k <= cn,
                        accs == self.accounts.deep_view(),
                        cfg == self.config.deep_view(),
                        forall|t: int| 0 <= t < cands@.len() ==> is_candidate(
                            accs,
                            cfg,
                            #[trigger] cands@[t] as int,
                            family@,
                            model@,
                            now,
                        ),
                        is_candidate(accs, cfg, chosen as int, family@, model@, now),
                        decided ==> chosen == si,
                        forall|t: int| 0 <= t < k && #[trigger] cands@[t] == si ==> decided,
                    decreases cn - k,
                {
                    if cands[k] == si {
                        chosen = cands[k];
                        decided = true;
                    }
                    k += 1;
                }
            }
        }
        if !decided {
            if rotate_rr {
                let slot = self.rr_counter % cn;
                chosen = cands[slot];
                proof {
                    assert(chosen as int == cl[slot as int]);
                    assert(slot as int == (old(self).rr_counter as int) % (cl.len() as int));
                }
                self.rr_counter = if self.rr_counter == usize::MAX {
                    0
                } else {
                    self.rr_counter + 1
                };
            } else {
                // Lowest decayed penalty wins; under force_rotate the sticky
                // account yields whenever another candidate exists.
                let avoid: Option<usize> = if force_rotate {
                    sticky
                } else {
                    None
                };
                let mut best: Option<usize> = None;
                let mut best_pen: u32 = 0;
                let mut k: usize = 0;
                while k < cn
                    invariant
                        cn == cands@.len(),
                        cn > 0,
                        k <= cn,
                        accs == self.accounts.deep_view(),
                        cfg == self.config.deep_view(),
                        self.wf(),
                        -NOW_BOUND <= now <= NOW_BOUND,
                        forall|t: int| 0 <= t < cands@.len() ==> (#[trigger] cands@[t])
                            < self.accounts@.len(),
                        forall|t: int| 0 <= t < cands@.len() ==> is_candidate(
                            accs,
                            cfg,
                            #[trigger] cands@[t] as int,
                            family@,
                            model@,
                            now,
                        ),
                        best matches Some(b) ==> {
                            &&& is_candidate(accs, cfg, b as int, family@, model@, now)
                            &&& (exists|t: int| 0 <= t < cands@.len() && #[trigger] cands@[t] == b)
                            &&& (match avoid {
                                Some(av) => b != av,
                                None => true,
                            })
                            &&& best_pen == effective_penalty(accs[b as int], now)
                            &&& forall|t: int|
                                0 <= t < k && (match avoid {
                                    Some(av) => #[trigger] cands@[t] != av,
                                    None => true,
                                }) ==> best_pen <= effective_penalty(
                                    accs[cands@[t] as int],
                                    now,
                                )
                        },
                        best is None ==> forall|t: int|
                            0 <= t < k ==> (match avoid {
                                Some(av) => #[trigger] cands@[t] == av,
                                None => false,
                            }),
                    decreases cn - k,
                {
                    let c = cands[k];
                    let skip_this = match avoid {
                        Some(av) => c == av,
                        None => false,
                    };
                    if !skip_this {
                        let p = self.effective_penalty_at(c, now);
                        let better = match best {
                            Some(_) => p < best_pen,
                            None => true,
                        };
                        if better {
                            best = Some(c);
                            best_pen = p;
                        }
                    }
                    k += 1;
                }
                chosen = match best {
                    Some(b) => b,
                    None => cands[0],
                };
                proof {
                    match best {
                        Some(b) => {
                            assert forall|j: int|
                                (#[trigger] is_candidate(accs, cfg, j, family@, model@, now)
                                    && (match avoid {
                                    Some(av) => j != av as int,
                                    None => true,
                                })) implies effective_penalty(accs[chosen as int], now)
                                <= effective_penalty(accs[j], now) by {
                                let t = choose|t: int|
                                    0 <= t < cands@.len() && #[trigger] cands@[t] == j;
                                assert(cands@[t] as int == j);
                            }
                        },
                        None => {
                            assert forall|j: int|
                                #[trigger] is_candidate(accs, cfg, j, family@, model@, now)
                                implies (match avoid {
                                Some(av) => j == av as int,
                                None => false,
                            }) by {
                                let t = choose|t: int|
                                    0 <= t < cands@.len() && #[trigger] cands@[t] == j;
                            }
                        },
                    }
                }
            }
        }
        proof {
            assert(is_candidate(accs, cfg, chosen as int, family@, model@, now));
        }
        let a = &self.accounts[chosen];
        let lease = TokenLease {
            account_id: String::from_str(a.id.as_str()),
            email: String::from_str(a.email.as_str()),
            access_token: String::from_str(a.access_token.as_str()),
            project_id: String::from_str(a.project_id.as_str()),
        };
        if let Some(sid) = session_id {
            let aid = String::from_str(lease.account_id.as_str());
            self.bind_session(sid, aid.as_str());
        }
        proof {
            assert(lease.deep_view().account_id == accs[chosen as int].id);
        }
        Ok(lease)
    }
}

} // verus!

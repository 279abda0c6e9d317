//! The dispatch engine: the bounded attempt loop as a state machine. The
//! caller performs the outside work (the HTTP call, reading the stream) and
//! feeds each outcome back in; every decision — commit, retry, rotate,
//! strip-thinking recovery, surfacing an error — is made here.
use vstd::prelude::*;

use crate::cleanup::close_tool_loop;
use crate::models::{BlockKind, BlockKindV, ContentBlock, ContentBlockV, AnthropicRequest, Message,
    MessageContent, MessageContentV, MessageV};
use crate::retry::{AnthropicErrorKind, error_kind_of_status, error_type_for_status,
    is_prompt_too_long, is_thinking_recovery_case, max_attempts, max_attempts_spec,
    retry_strategy_spec, strategy_delay_spec};
use crate::token_manager::{TokenManager, VALIDATION_BLOCK_SECS, account_available, find_by_email,
    find_by_id, status_default_hold, NOW_BOUND, RETRY_AFTER_CAP};

verus! {

// ---------------------------------------------------------------------------
// Attempt state
// ---------------------------------------------------------------------------

/// The dispatcher's per-request loop state. `attempt` counts the upstream
/// call in flight (zero-based), so the calls made never exceed
/// `max_attempts`.
pub struct AttemptState {
    pub attempt: usize,
    pub max_attempts: usize,
    pub retried_without_thinking: bool,
    pub last_status: u16,
    pub last_error: String,
}

impl AttemptState {
    /// The attempt counter stays under the bound.
    pub open spec fn wf(&self) -> bool {
        self.attempt < self.max_attempts
    }

    /// Starts the loop for a pool of `pool_size` accounts: the bound is
    /// `clamp(3, 2, pool_size + 1)` and the first attempt is attempt zero.
    pub fn new(pool_size: usize) -> (s: AttemptState)
        ensures
            s.attempt == 0,
            s.max_attempts == max_attempts_spec(pool_size as nat),
            !s.retried_without_thinking,
            s.last_status == 503,
            s.wf(),
    {
        AttemptState {
            attempt: 0,
            max_attempts: max_attempts(pool_size),
            retried_without_thinking: false,
            last_status: 503,
            last_error: String::new(),
        }
    }
}

/// What the outside work of one attempt reported back.
pub enum UpstreamEvent {
    /// The HTTP call itself failed.
    NetworkError { message: String },
    /// The upstream answered with a non-success status.
    HttpError { status: u16, retry_after_secs: Option<u64>, body: String },
    /// The peek saw the first non-heartbeat data chunk of a 2xx stream.
    PeekData,
    /// The 2xx stream failed during the peek.
    PeekStreamError { message: String },
    /// The 2xx stream ended during the peek without a data chunk.
    PeekStreamEnd,
    /// The peek hit its timeout without a data chunk.
    PeekTimeout,
}

/// What the dispatcher does next.
pub enum AttemptDecision {
    /// Commit to this stream: relay it (or collect it to JSON).
    Commit,
    /// Run another attempt after the delay; with `strip_thinking`, rewrite
    /// the request through the strip-thinking recovery first.
    RetryNext { delay_ms: u64, strip_thinking: bool },
    /// Surface the error with this status and kind.
    Fail { status: u16, kind: AnthropicErrorKind, message: String },
}

impl TokenManager {
    /// Applies the per-status bookkeeping of a failed attempt to the pool,
    /// exactly as the loop owes it: a rate-limit entry for 429/500/503/529
    /// honoring Retry-After (the account stays unavailable for the pair
    /// until the hold expires), a failure report for 401/402/429 (a 401
    /// naming `invalid_grant` voids the grant), the decaying 429 penalty,
    /// and a ten-minute validation block on a validation-required 403. Any
    /// other outcome leaves the pool untouched.
    pub fn apply_upstream_marks(
        &mut self,
        email: &str,
        account_id: &str,
        status: u16,
        retry_after_secs: Option<u64>,
        body: &str,
        model: &str,
        family: &str,
        now: i64,
    )
        requires
            old(self).wf(),
            -NOW_BOUND <= now <= NOW_BOUND,
        ensures
            final(self).wf(),
            final(self).accounts.deep_view().len() == old(self).accounts.deep_view().len(),
            (status == 429 || status == 500 || status == 503 || status == 529) ==> ({
                let accs = old(self).accounts.deep_view();
                match find_by_email(accs, email@) {
                    None => true,
                    Some(i) => {
                        let ra = match retry_after_secs {
                            Some(h) => if h <= RETRY_AFTER_CAP {
                                h
                            } else {
                                RETRY_AFTER_CAP
                            },
                            None => 0,
                        };
                        let hold = if status_default_hold(status) >= ra {
                            status_default_hold(status)
                        } else {
                            ra as u64
                        };
                        forall|t: i64|
                            now <= t < now + hold ==> !account_available(
                                final(self).accounts.deep_view()[i],
                                family@,
                                model@,
                                t,
                            )
                    },
                }
            }),
            (status == 401 || status == 402 || status == 429) ==> ({
                let accs = old(self).accounts.deep_view();
                match find_by_id(accs, account_id@) {
                    None => true,
                    Some(j) => {
                        &&& final(self).accounts.deep_view()[j].failure_count == (if accs[
                            j
                        ].failure_count < 0xffff_ffff {
                            accs[j].failure_count + 1
                        } else {
                            accs[j].failure_count as int
                        })
                        &&& final(self).accounts.deep_view()[j].invalid_grant == (accs[
                            j
                        ].invalid_grant || (status == 401 && crate::strutil::contains_seq(
                            body@,
                            "invalid_grant"@,
                        )))
                    },
                }
            }),
            status == 429 ==> ({
                let accs = old(self).accounts.deep_view();
                match find_by_id(accs, account_id@) {
                    None => true,
                    Some(j) => {
                        &&& final(self).accounts.deep_view()[j].penalty_updated_at == now
                        &&& final(self).accounts.deep_view()[j].penalty == (
                        if crate::token_manager::effective_penalty(accs[j], now) + 100
                            <= u32::MAX {
                            crate::token_manager::effective_penalty(accs[j], now) + 100
                        } else {
                            u32::MAX as int
                        })
                    },
                }
            }),
            crate::retry::is_validation_required(status, body@) ==> ({
                let accs = old(self).accounts.deep_view();
                match find_by_id(accs, account_id@) {
                    None => true,
                    Some(j) => final(self).accounts.deep_view()[j].validation_block_until == now
                        + VALIDATION_BLOCK_SECS,
                }
            }),
            (!(status == 429 || status == 500 || status == 503 || status == 529) && !(status
                == 401 || status == 402) && !crate::retry::is_validation_required(status, body@))
                ==> final(self).accounts.deep_view() == old(self).accounts.deep_view(),
    {
        let ghost accs = self.accounts.deep_view();
        let rate_limiting = status == 429 || status == 500 || status == 503 || status == 529;
        if rate_limiting {
            self.mark_rate_limited(email, status, retry_after_secs, model, family, now);
        }
        let ghost mid1 = self.accounts.deep_view();
        proof {
            if rate_limiting {
                match find_by_email(accs, email@) {
                    None => {},
                    Some(i) => {
                        crate::token_manager::lemma_find_by_email_valid(accs, email@);
                    },
                }
            }
            assert forall|k: int| 0 <= k < accs.len() implies (#[trigger] mid1[k]).id == accs[
                k
            ].id && mid1[k].failure_count == accs[k].failure_count && mid1[k].invalid_grant
                == accs[k].invalid_grant && mid1[k].penalty == accs[k].penalty && mid1[
                k
            ].penalty_updated_at == accs[k].penalty_updated_at && mid1[k].validation_block_until
                == accs[k].validation_block_until by {
                if rate_limiting {
                    match find_by_email(accs, email@) {
                        None => {},
                        Some(i) => {
                            if k != i {
                                assert(mid1[k] == accs[k]);
                            }
                        },
                    }
                }
            }
            crate::token_manager::lemma_find_by_id_same_ids(mid1, accs, account_id@);
        }
        if status == 402 || status == 429 || status == 401 {
            self.report_account_failure(account_id, status, body);
        }
        let ghost mid2 = self.accounts.deep_view();
        proof {
            if status == 402 || status == 429 || status == 401 {
                match find_by_id(mid1, account_id@) {
                    None => {},
                    Some(j) => {
                        crate::token_manager::lemma_find_by_id_valid(mid1, account_id@);
                    },
                }
            }
            assert forall|k: int| 0 <= k < accs.len() implies (#[trigger] mid2[k]).id == mid1[
                k
            ].id && mid2[k].rate_limits == mid1[k].rate_limits && mid2[k].penalty == mid1[
                k
            ].penalty && mid2[k].penalty_updated_at == mid1[k].penalty_updated_at && mid2[
                k
            ].validation_block_until == mid1[k].validation_block_until by {
                if status == 402 || status == 429 || status == 401 {
                    match find_by_id(mid1, account_id@) {
                        None => {},
                        Some(j) => {
                            if k != j {
                                assert(mid2[k] == mid1[k]);
                            }
                        },
                    }
                }
            }
            crate::token_manager::lemma_find_by_id_same_ids(mid2, accs, account_id@);
        }
        if status == 429 {
            self.report_429_penalty(account_id, now);
        }
        let ghost mid3 = self.accounts.deep_view();
        proof {
            if status == 429 {
                match find_by_id(mid2, account_id@) {
                    None => {},
                    Some(j) => {
                        crate::token_manager::lemma_find_by_id_valid(mid2, account_id@);
                    },
                }
            }
            assert forall|k: int| 0 <= k < accs.len() implies (#[trigger] mid3[k]).id == mid2[
                k
            ].id && mid3[k].rate_limits == mid2[k].rate_limits && mid3[k].failure_count == mid2[
                k
            ].failure_count && mid3[k].invalid_grant == mid2[k].invalid_grant && mid3[
                k
            ].validation_block_until == mid2[k].validation_block_until by {
                if status == 429 {
                    match find_by_id(mid2, account_id@) {
                        None => {},
                        Some(j) => {
                            if k != j {
                                assert(mid3[k] == mid2[k]);
                            }
                        },
                    }
                }
            }
            crate::token_manager::lemma_find_by_id_same_ids(mid3, accs, account_id@);
            if status == 429 {
                match find_by_id(accs, account_id@) {
                    None => {},
                    Some(j) => {
                        assert(crate::token_manager::effective_penalty(mid2[j], now)
                            == crate::token_manager::effective_penalty(accs[j], now));
                    },
                }
            }
        }
        if crate::retry::is_validation_required_error(status, body) {
            let until = now + VALIDATION_BLOCK_SECS;
            let _ = self.set_validation_block_public(account_id, until);
        }
        proof {
            let fin = final(self).accounts.deep_view();
            if crate::retry::is_validation_required(status, body@) {
                match find_by_id(mid3, account_id@) {
                    None => {},
                    Some(j) => {
                        crate::token_manager::lemma_find_by_id_valid(mid3, account_id@);
                    },
                }
            }
            assert forall|k: int| 0 <= k < accs.len() implies (#[trigger] fin[k]).rate_limits
                == mid3[k].rate_limits && fin[k].failure_count == mid3[k].failure_count && fin[
                k
            ].invalid_grant == mid3[k].invalid_grant && fin[k].penalty == mid3[k].penalty && fin[
                k
            ].penalty_updated_at == mid3[k].penalty_updated_at by {
                if crate::retry::is_validation_required(status, body@) {
                    match find_by_id(mid3, account_id@) {
                        None => {},
                        Some(j) => {
                            if k != j {
                                assert(fin[k] == mid3[k]);
                            }
                        },
                    }
                }
            }
            if rate_limiting {
                match find_by_email(accs, email@) {
                    None => {},
                    Some(i) => {
                        crate::token_manager::lemma_find_by_email_valid(accs, email@);
                        let fa1 = mid1[i];
                        let ra = match retry_after_secs {
                            Some(h) => if h <= RETRY_AFTER_CAP {
                                h
                            } else {
                                RETRY_AFTER_CAP
                            },
                            None => 0,
                        };
                        let hold = if status_default_hold(status) >= ra {
                            status_default_hold(status)
                        } else {
                            ra as u64
                        };
                        assert forall|t: i64| now <= t < now + hold implies !account_available(
                            fin[i],
                            family@,
                            model@,
                            t,
                        ) by {
                            let nj = fa1.rate_limits.len() - 1;
                            assert(fa1.rate_limits[nj].family == family@ && fa1.rate_limits[
                                nj
                            ].model == model@ && fa1.rate_limits[nj].until > t);
                            assert(crate::token_manager::rate_limited(fa1, family@, model@, t));
                            assert(fin[i].rate_limits == fa1.rate_limits);
                            assert(crate::token_manager::rate_limited(fin[i], family@, model@, t));
                        }
                    },
                }
            }
        }
    }
}

/// Advances the loop on the outcome of one attempt. The decision is `Commit`
/// exactly when the peek saw its first data chunk, so nothing is ever
/// relayed before that. A network or peek failure retries exactly while
/// another attempt is permitted; an HTTP error retries exactly when its
/// status's strategy allows a retry and another attempt is permitted, after
/// the strategy's delay. A 400 with a thinking-signature marker takes the
/// strip-thinking recovery (even when a too-long marker is also present); a
/// plain too-long 400 fails at once.
pub fn on_upstream_event(state: &mut AttemptState, ev: UpstreamEvent) -> (d: AttemptDecision)
    requires
        old(state).wf(),
    ensures
        final(state).wf(),
        final(state).max_attempts == old(state).max_attempts,
        d is Commit <==> ev is PeekData,
        d matches AttemptDecision::RetryNext { delay_ms, strip_thinking } ==> {
            &&& final(state).attempt == old(state).attempt + 1
            &&& final(state).attempt < final(state).max_attempts
            &&& (strip_thinking ==> final(state).retried_without_thinking)
        },
        !(d is RetryNext) ==> final(state).attempt == old(state).attempt,
        (ev is NetworkError || ev is PeekStreamError || ev is PeekStreamEnd || ev is PeekTimeout)
            ==> (d is RetryNext <==> old(state).attempt + 2 <= old(state).max_attempts),
        ev matches UpstreamEvent::HttpError { status, retry_after_secs, body } ==> {
            &&& final(state).last_status == status
            &&& (d is RetryNext <==> (!(retry_strategy_spec(
                status,
                body@,
                old(state).retried_without_thinking,
            ) is NoRetry) && old(state).attempt + 1 < old(state).max_attempts))
            &&& (d matches AttemptDecision::RetryNext { delay_ms, strip_thinking } ==> delay_ms
                == strategy_delay_spec(
                retry_strategy_spec(status, body@, old(state).retried_without_thinking),
                old(state).attempt as nat,
            ) && strip_thinking == is_thinking_recovery_case(
                status,
                body@,
                old(state).retried_without_thinking,
            ))
            &&& (d matches AttemptDecision::Fail { status: fs, kind, message } ==> fs == status
                && kind == error_kind_of_status(status))
            &&& ((is_prompt_too_long(status, body@) && !is_thinking_recovery_case(
                status,
                body@,
                old(state).retried_without_thinking,
            )) ==> d is Fail)
        },
{
    match ev {
        UpstreamEvent::PeekData => AttemptDecision::Commit,
        UpstreamEvent::NetworkError { message } => retry_or_exhaust(state, message),
        UpstreamEvent::PeekStreamError { message } => retry_or_exhaust(state, message),
        UpstreamEvent::PeekStreamEnd => retry_or_exhaust(
            state,
            String::from_str("empty response stream during peek"),
        ),
        UpstreamEvent::PeekTimeout => retry_or_exhaust(
            state,
            String::from_str("timeout waiting for first data"),
        ),
        UpstreamEvent::HttpError { status, retry_after_secs, body } => {
            state.last_status = status;
            let strategy = crate::retry::determine_retry_strategy(
                status,
                body.as_str(),
                state.retried_without_thinking,
            );
            let thinking_case = status == 400 && !state.retried_without_thinking
                && crate::retry::body_has_thinking_signature_marker(body.as_str());
            let (cont, delay) = crate::retry::apply_retry_strategy(
                strategy,
                state.attempt,
                state.max_attempts,
            );
            state.last_error = body;
            if !thinking_case && crate::retry::is_prompt_too_long_error(
                status,
                state.last_error.as_str(),
            ) {
                return AttemptDecision::Fail {
                    status,
                    kind: error_type_for_status(status),
                    message: String::from_str(
                        "Prompt is too long (server-side context limit reached).",
                    ),
                };
            }
            if cont {
                state.attempt = state.attempt + 1;
                if thinking_case {
                    state.retried_without_thinking = true;
                }
                AttemptDecision::RetryNext { delay_ms: delay, strip_thinking: thinking_case }
            } else {
                AttemptDecision::Fail {
                    status,
                    kind: error_type_for_status(status),
                    message: String::from_str(state.last_error.as_str()),
                }
            }
        },
    }
}

/// The attempt bound, as a law of the loop state: the calls made so far
/// (`attempt + 1`) never exceed `clamp(3, 2, pool_size + 1)`. The bound
/// holds at `AttemptState::new` and every `on_upstream_event` keeps it.
pub proof fn lemma_attempts_bounded(s: AttemptState, pool_size: nat)
    requires
        s.wf(),
        s.max_attempts == max_attempts_spec(pool_size),
    ensures
        s.attempt + 1 <= max_attempts_spec(pool_size),
{
}

fn retry_or_exhaust(state: &mut AttemptState, message: String) -> (d: AttemptDecision)
    requires
        old(state).wf(),
    ensures
        final(state).wf(),
        final(state).max_attempts == old(state).max_attempts,
        final(state).last_status == old(state).last_status,
        !(d is Commit),
        d is RetryNext <==> old(state).attempt + 2 <= old(state).max_attempts,
        d matches AttemptDecision::RetryNext { delay_ms, strip_thinking } ==> {
            &&& final(state).attempt == old(state).attempt + 1
            &&& !strip_thinking
        },
        !(d is RetryNext) ==> final(state).attempt == old(state).attempt,
        d matches AttemptDecision::Fail { status, kind, message: m } ==> status == old(
            state,
        ).last_status && kind == error_kind_of_status(old(state).last_status),
{
    state.last_error = message;
    if state.attempt < state.max_attempts && state.max_attempts - state.attempt > 1 {
        state.attempt = state.attempt + 1;
        AttemptDecision::RetryNext { delay_ms: 0, strip_thinking: false }
    } else {
        AttemptDecision::Fail {
            status: state.last_status,
            kind: error_type_for_status(state.last_status),
            message: String::from_str(state.last_error.as_str()),
        }
    }
}

// ---------------------------------------------------------------------------
// Warmup interception
// ---------------------------------------------------------------------------

/// The prefix a client-side warmup probe carries.
pub const WARMUP_PREFIX: &'static str = "Warmup";

/// The fixed text a locally answered warmup probe receives.
pub const WARMUP_REPLY_TEXT: &'static str = "Warmup acknowledged.";

/// The plain text a warmup test reads from a message: string content, or the
/// first text block.
pub open spec fn message_probe_text(m: MessageV) -> Seq<char> {
    match m.content {
        MessageContentV::Text(s) => s,
        MessageContentV::Blocks(bs) => if bs.len() > 0 && bs[0].kind is Text {
            bs[0].kind->Text_text
        } else {
            Seq::empty()
        },
    }
}

/// A client-side warmup probe: the last message's plain text starts with the
/// warmup prefix. Such requests are answered locally to save quota.
pub open spec fn is_warmup(r: crate::models::AnthropicRequestV) -> bool {
    r.messages.len() > 0 && crate::strutil::is_prefix_of(
        message_probe_text(r.messages.last()),
        WARMUP_PREFIX@,
    )
}

/// Detects a warmup probe.
pub fn is_warmup_request(r: &AnthropicRequest) -> (b: bool)
    ensures
        b == is_warmup(r.deep_view()),
{
    let n = r.messages.len();
    if n == 0 {
        return false;
    }
    let m = &r.messages[n - 1];
    proof {
        assert(m.deep_view() == r.deep_view().messages.last());
    }
    let probe: &str = match &m.content {
        MessageContent::Text(s) => s.as_str(),
        MessageContent::Blocks(bs) => {
            if bs.len() > 0 {
                match &bs[0].kind {
                    BlockKind::Text { text } => text.as_str(),
                    _ => "",
                }
            } else {
                ""
            }
        },
    };
    proof {
        if !(m.deep_view().content is Text) {
            reveal_strlit("");
            if !(m.deep_view().content->Blocks_0.len() > 0 && m.deep_view().content->Blocks_0[
                0
            ].kind is Text) {
                assert(probe@ =~= message_probe_text(m.deep_view()));
            }
        }
    }
    crate::strutil::str_starts_with(probe, WARMUP_PREFIX)
}

/// The locally built reply to a warmup probe: one fixed text block, a normal
/// end of turn, and no token usage.
pub fn create_warmup_response(model: &str) -> (r: crate::models::AnthropicResponse)
    ensures
        r.deep_view().model == model@,
        r.deep_view().role == "assistant"@,
        r.deep_view().content == seq![
            ContentBlockV {
                kind: BlockKindV::Text { text: WARMUP_REPLY_TEXT@ },
                cache_control: None,
            },
        ],
        r.deep_view().stop_reason == Some("end_turn"@),
        r.deep_view().usage == (crate::models::AnthropicUsage {
            input_tokens: 0,
            output_tokens: 0,
            cache_read_input_tokens: None,
        }),
{
    let mut content: Vec<ContentBlock> = Vec::new();
    content.push(
        ContentBlock {
            kind: BlockKind::Text { text: String::from_str(WARMUP_REPLY_TEXT) },
            cache_control: None,
        },
    );
    proof {
        assert(content.deep_view() =~= seq![
            ContentBlockV {
                kind: BlockKindV::Text { text: WARMUP_REPLY_TEXT@ },
                cache_control: None,
            },
        ]);
    }
    crate::models::AnthropicResponse {
        model: String::from_str(model),
        role: String::from_str("assistant"),
        content,
        stop_reason: Some(String::from_str("end_turn")),
        usage: crate::models::AnthropicUsage {
            input_tokens: 0,
            output_tokens: 0,
            cache_read_input_tokens: None,
        },
    }
}

// ---------------------------------------------------------------------------
// The streaming peek
// ---------------------------------------------------------------------------

/// An ASCII whitespace byte, as the peek's heartbeat test skips it.
pub open spec fn is_ws(b: u8) -> bool {
    b == 32 || b == 9 || b == 13 || b == 10
}

/// The chunk with leading whitespace removed.
pub open spec fn skip_ws(s: Seq<u8>) -> Seq<u8>
    decreases s.len(),
{
    if s.len() == 0 {
        s
    } else if is_ws(s[0]) {
        skip_ws(s.skip(1))
    } else {
        s
    }
}

/// A chunk the peek commits on: non-empty, and not a heartbeat line (one
/// whose first non-whitespace byte is a colon).
pub open spec fn is_data_chunk(s: Seq<u8>) -> bool {
    s.len() > 0 && !(skip_ws(s).len() > 0 && skip_ws(s)[0] == 58)
}

/// Classifies one peeked chunk: `true` means the first real data arrived and
/// the stream may be committed; `false` means keep waiting (an empty chunk
/// or a heartbeat).
pub fn classify_peek_chunk(bytes: &Vec<u8>) -> (data: bool)
    ensures
        data == is_data_chunk(bytes@),
{
    let n = bytes.len();
    if n == 0 {
        return false;
    }
    let mut i: usize = 0;
    proof {
        assert(bytes@.skip(0) =~= bytes@);
    }
    while i < n
        invariant
            n == bytes@.len(),
            i <= n,
            forall|k: int| 0 <= k < i ==> is_ws(bytes@[k]),
            skip_ws(bytes@) == skip_ws(bytes@.skip(i as int)),
        decreases n - i,
    {
        let b = bytes[i];
        if !(b == 32 || b == 9 || b == 13 || b == 10) {
            proof {
                assert(skip_ws(bytes@.skip(i as int)) == bytes@.skip(i as int));
            }
            return b != 58;
        }
        proof {
            assert(bytes@.skip(i as int).skip(1) =~= bytes@.skip(i + 1));
        }
        i += 1;
    }
    proof {
        assert(bytes@.skip(n as int) =~= Seq::<u8>::empty());
    }
    true
}

// ---------------------------------------------------------------------------
// Strip-thinking recovery
// ---------------------------------------------------------------------------

/// The recovery prompt appended to the last user message before the retry.
pub const THINKING_REPAIR_PROMPT: &'static str =
    "\n\n[System Recovery] Your previous output contained an invalid signature. Please regenerate the response without the corrupted signature block.";

/// A block list with thinking turned to plain text (empty thinking dropped)
/// and redacted thinking removed.
pub open spec fn strip_blocks(bs: Seq<ContentBlockV>) -> Seq<ContentBlockV>
    decreases bs.len(),
{
    if bs.len() == 0 {
        Seq::empty()
    } else {
        let rest = strip_blocks(bs.drop_last());
        match bs.last().kind {
            BlockKindV::Thinking { thinking, signature } => {
                if thinking.len() > 0 {
                    rest.push(
                        ContentBlockV {
                            kind: BlockKindV::Text { text: thinking },
                            cache_control: bs.last().cache_control,
                        },
                    )
                } else {
                    rest
                }
            },
            BlockKindV::RedactedThinking { data } => rest,
            _ => rest.push(bs.last()),
        }
    }
}

/// The history with every thinking block stripped.
pub open spec fn strip_messages(ms: Seq<MessageV>) -> Seq<MessageV> {
    ms.map_values(
        |m: MessageV| match m.content {
            MessageContentV::Text(s) => m,
            MessageContentV::Blocks(bs) => MessageV {
                role: m.role,
                content: MessageContentV::Blocks(strip_blocks(bs)),
                cache_control: m.cache_control,
            },
        },
    )
}

/// The history with the repair prompt appended to its last message when that
/// message is a user turn.
pub open spec fn append_repair(ms: Seq<MessageV>) -> Seq<MessageV> {
    if ms.len() > 0 && ms.last().role == "user"@ {
        let m = ms.last();
        let nm = match m.content {
            MessageContentV::Text(s) => MessageV {
                role: m.role,
                content: MessageContentV::Text(s + THINKING_REPAIR_PROMPT@),
                cache_control: m.cache_control,
            },
            MessageContentV::Blocks(bs) => MessageV {
                role: m.role,
                content: MessageContentV::Blocks(
                    bs.push(
                        ContentBlockV {
                            kind: BlockKindV::Text { text: THINKING_REPAIR_PROMPT@ },
                            cache_control: None,
                        },
                    ),
                ),
                cache_control: m.cache_control,
            },
        };
        ms.update(ms.len() - 1, nm)
    } else {
        ms
    }
}

/// The whole recovery rewrite of the history.
pub open spec fn recovery_history(ms: Seq<MessageV>) -> Seq<MessageV> {
    close_tool_loop(strip_messages(append_repair(ms)))
}

fn strip_blocks_exec(bs: Vec<ContentBlock>) -> (r: Vec<ContentBlock>)
    ensures
        r.deep_view() == strip_blocks(bs.deep_view()),
{
    let ghost orig = bs.deep_view();
    let mut rest = bs;
    let mut out: Vec<ContentBlock> = Vec::new();
    let ghost consumed: int = 0;
    proof {
        assert(orig.take(0) =~= Seq::<ContentBlockV>::empty());
    }
    while rest.len() > 0
        invariant
            0 <= consumed <= orig.len(),
            rest.deep_view().len() == orig.len() - consumed,
            forall|k: int| 0 <= k < rest.deep_view().len() ==> rest.deep_view()[k] == orig[
                consumed + k
            ],
            out.deep_view() == strip_blocks(orig.take(consumed)),
        decreases rest.len(),
    {
        let ghost out0 = out.deep_view();
        let ghost rest0 = rest.deep_view();
        let b = rest.remove(0);
        proof {
            assert(rest.deep_view() =~= rest0.skip(1));
            assert(b.deep_view() == rest0[0]);
            assert(b.deep_view() == orig[consumed]);
            assert(orig.take(consumed + 1).drop_last() =~= orig.take(consumed));
            assert(orig.take(consumed + 1).last() == orig[consumed]);
        }
        match b.kind {
            BlockKind::Thinking { thinking, signature } => {
                if thinking.as_str().unicode_len() > 0 {
                    let nb = ContentBlock {
                        kind: BlockKind::Text { text: thinking },
                        cache_control: b.cache_control,
                    };
                    let ghost nv = nb.deep_view();
                    out.push(nb);
                    proof {
                        assert(out.deep_view() =~= out0.push(nv));
                    }
                }
            },
            BlockKind::RedactedThinking { data } => {},
            other => {
                let nb = ContentBlock { kind: other, cache_control: b.cache_control };
                let ghost nv = nb.deep_view();
                out.push(nb);
                proof {
                    assert(nv == orig[consumed]);
                    assert(out.deep_view() =~= out0.push(orig[consumed]));
                }
            },
        }
        proof {
            consumed = consumed + 1;
        }
    }
    proof {
        assert(orig.take(consumed) =~= orig);
    }
    out
}

/// Rewrites the request for the one-shot strip-thinking recovery: the repair
/// prompt joins the last user message, thinking becomes plain text, redacted
/// thinking disappears, the tool loop is re-closed, and the model collapses
/// to its base name without `-thinking`.
pub fn apply_thinking_recovery(req: &mut AnthropicRequest)
    ensures
        final(req).deep_view().messages == recovery_history(old(req).deep_view().messages),
        final(req).deep_view().model == crate::model_mapping::recovery_model(
            old(req).deep_view().model,
        ),
        final(req).deep_view().stream == old(req).deep_view().stream,
        final(req).deep_view().system == old(req).deep_view().system,
        final(req).deep_view().tools == old(req).deep_view().tools,
{
    let dup = crate::context::duplicate_request(req);
    let ghost orig = old(req).deep_view().messages;
    let mut msgs = dup.messages;
    // Repair prompt onto the last user message.
    let n = msgs.len();
    if n > 0 {
        let is_user = crate::strutil::str_eq(msgs[n - 1].role.as_str(), "user");
        if is_user {
            let last = msgs.remove(n - 1);
            proof {
                assert(msgs.deep_view() =~= orig.drop_last());
                assert(last.deep_view() == orig.last());
            }
            let nm = match last.content {
                MessageContent::Text(s) => {
                    let mut s2 = s;
                    s2.append(THINKING_REPAIR_PROMPT);
                    Message {
                        role: last.role,
                        content: MessageContent::Text(s2),
                        cache_control: last.cache_control,
                    }
                },
                MessageContent::Blocks(bs) => {
                    let mut bs2 = bs;
                    let ghost b0 = bs2.deep_view();
                    bs2.push(
                        ContentBlock {
                            kind: BlockKind::Text {
                                text: String::from_str(THINKING_REPAIR_PROMPT),
                            },
                            cache_control: None,
                        },
                    );
                    proof {
                        assert(bs2.deep_view() =~= b0.push(
                            ContentBlockV {
                                kind: BlockKindV::Text { text: THINKING_REPAIR_PROMPT@ },
                                cache_control: None,
                            },
                        ));
                    }
                    Message {
                        role: last.role,
                        content: MessageContent::Blocks(bs2),
                        cache_control: last.cache_control,
                    }
                },
            };
            msgs.push(nm);
            proof {
                assert(msgs.deep_view() =~= append_repair(orig));
            }
        } else {
            proof {
                assert(msgs.deep_view() =~= append_repair(orig));
            }
        }
    } else {
        proof {
            assert(msgs.deep_view() =~= append_repair(orig));
        }
    }
    // Thinking out of every message.
    let ghost appended = msgs.deep_view();
    let mut out: Vec<Message> = Vec::new();
    while msgs.len() > 0
        invariant
            out.deep_view().len() + msgs.deep_view().len() == appended.len(),
            forall|k: int| 0 <= k < out.deep_view().len() ==> out.deep_view()[k] == strip_messages(
                appended,
            )[k],
            forall|k: int| 0 <= k < msgs.deep_view().len() ==> msgs.deep_view()[k] == appended[
                out.deep_view().len() + k
            ],
        decreases msgs.len(),
    {
        let ghost out0 = out.deep_view();
        let ghost rest0 = msgs.deep_view();
        let m = msgs.remove(0);
        proof {
            assert(msgs.deep_view() =~= rest0.skip(1));
            assert(m.deep_view() == rest0[0]);
            assert(m.deep_view() == appended[out0.len() as int]);
        }
        let nm = match m.content {
            MessageContent::Text(s) => Message {
                role: m.role,
                content: MessageContent::Text(s),
                cache_control: m.cache_control,
            },
            MessageContent::Blocks(bs) => Message {
                role: m.role,
                content: MessageContent::Blocks(strip_blocks_exec(bs)),
                cache_control: m.cache_control,
            },
        };
        out.push(nm);
        proof {
            assert(out.deep_view() =~= out0.push(strip_messages(appended)[out0.len() as int]));
        }
    }
    proof {
        assert(out.deep_view() =~= strip_messages(appended));
    }
    // Close the tool loop again and collapse the model name.
    crate::cleanup::close_tool_loop_for_thinking(&mut out);
    let new_model = crate::model_mapping::canonicalize_model_for_recovery(dup.model.as_str());
    *req = AnthropicRequest {
        model: new_model,
        stream: dup.stream,
        system: dup.system,
        messages: out,
        tools: dup.tools,
        thinking: dup.thinking,
        sampling: dup.sampling,
        size: dup.size,
        quality: dup.quality,
    };
}

} // verus!

use proxy_core::sse::{SseEvent, SseItem, SseSequencer};
use proxy_core::dispatch::{classify_peek_chunk, create_warmup_response, is_warmup_request,
    on_upstream_event, apply_thinking_recovery, AttemptDecision, AttemptState, UpstreamEvent,
    THINKING_REPAIR_PROMPT, WARMUP_REPLY_TEXT};
use proxy_core::models::{BlockKind, AnthropicRequest, ContentBlock, Message, MessageContent,
    SamplingParams};
use proxy_core::retry::{determine_retry_strategy, error_type_for_status, max_attempts,
    sanitize_lease_error, should_rotate_account, AnthropicErrorKind, RetryStrategy,
    INVALID_GRANT_GUIDANCE};

fn request(model: &str, msgs: Vec<Message>) -> AnthropicRequest {
    AnthropicRequest {
        model: model.to_string(),
        stream: true,
        system: None,
        messages: msgs,
        tools: None,
        thinking: None,
        sampling: SamplingParams {
            max_tokens: None,
            temperature_milli: None,
            top_p_milli: None,
            top_k: None,
        },
        size: None,
        quality: None,
    }
}

#[test]
fn max_attempts_is_clamped() {
    assert_eq!(max_attempts(0), 2);
    assert_eq!(max_attempts(1), 2);
    assert_eq!(max_attempts(2), 3);
    assert_eq!(max_attempts(3), 3);
    assert_eq!(max_attempts(100), 3);
}

#[test]
fn rotation_statuses() {
    assert!(should_rotate_account(401));
    assert!(should_rotate_account(402));
    assert!(should_rotate_account(403));
    assert!(should_rotate_account(429));
    assert!(!should_rotate_account(500));
    assert!(!should_rotate_account(503));
    assert!(!should_rotate_account(529));
}

#[test]
fn retry_strategies_per_status() {
    assert_eq!(determine_retry_strategy(400, "bad", false), RetryStrategy::NoRetry);
    assert_eq!(
        determine_retry_strategy(400, "Invalid `signature`", false),
        RetryStrategy::FixedDelay(200)
    );
    assert_eq!(
        determine_retry_strategy(400, "Invalid `signature`", true),
        RetryStrategy::NoRetry
    );
    assert_eq!(determine_retry_strategy(401, "x", false), RetryStrategy::FixedDelay(100));
    assert_eq!(
        determine_retry_strategy(429, "x", false),
        RetryStrategy::ExponentialBackoff { base_ms: 1000, max_ms: 30000 }
    );
    assert_eq!(
        determine_retry_strategy(503, "x", false),
        RetryStrategy::ExponentialBackoff { base_ms: 500, max_ms: 8000 }
    );
    assert_eq!(determine_retry_strategy(502, "x", false), RetryStrategy::FixedDelay(500));
    assert_eq!(determine_retry_strategy(200, "x", false), RetryStrategy::NoRetry);
}

#[test]
fn error_kinds_per_status() {
    assert_eq!(error_type_for_status(400).wire_name(), "invalid_request_error");
    assert_eq!(error_type_for_status(401).wire_name(), "authentication_error");
    assert_eq!(error_type_for_status(403).wire_name(), "permission_error");
    assert_eq!(error_type_for_status(429).wire_name(), "rate_limit_error");
    assert_eq!(error_type_for_status(529).wire_name(), "overloaded_error");
    assert_eq!(error_type_for_status(500).wire_name(), "api_error");
}

#[test]
fn peek_commits_only_on_data() {
    // Heartbeats and blanks keep the peek waiting.
    assert!(!classify_peek_chunk(&Vec::new()));
    assert!(!classify_peek_chunk(&b": keep-alive\n".to_vec()));
    assert!(!classify_peek_chunk(&b"   : ping".to_vec()));
    // The first real chunk commits the stream.
    assert!(classify_peek_chunk(&b"data: {}".to_vec()));
    assert!(classify_peek_chunk(&b"  data: {}".to_vec()));

    let mut state = AttemptState::new(3);
    let d = on_upstream_event(&mut state, UpstreamEvent::PeekData);
    assert!(matches!(d, AttemptDecision::Commit));
    let d = on_upstream_event(&mut state, UpstreamEvent::PeekTimeout);
    assert!(!matches!(d, AttemptDecision::Commit));
}

#[test]
fn thinking_signature_retry_scenario() {
    // An upstream 400 with the signature marker, then success: exactly two
    // attempts, and the second request carries no thinking blocks and the
    // undated model name.
    let long_sig = "s".repeat(proxy_core::cleanup::MIN_SIGNATURE_LENGTH);
    let mut req = request(
        "anthropic-sonnet-4-5-20250929-thinking",
        vec![
            Message {
                role: "assistant".to_string(),
                content: MessageContent::Blocks(vec![ContentBlock {
                    kind: BlockKind::Thinking {
                        thinking: "chain".to_string(),
                        signature: long_sig,
                    },
                    cache_control: None,
                }]),
                cache_control: None,
            },
            Message {
                role: "user".to_string(),
                content: MessageContent::Text("hi".to_string()),
                cache_control: None,
            },
        ],
    );
    let mut state = AttemptState::new(3);
    let mut attempts = 1;
    let d = on_upstream_event(
        &mut state,
        UpstreamEvent::HttpError {
            status: 400,
            retry_after_secs: None,
            body: "Invalid `signature`".to_string(),
        },
    );
    match d {
        AttemptDecision::RetryNext { delay_ms, strip_thinking } => {
            assert_eq!(delay_ms, 200);
            assert!(strip_thinking);
            apply_thinking_recovery(&mut req);
            attempts += 1;
        }
        _ => panic!("expected the strip-thinking retry"),
    }
    let d = on_upstream_event(&mut state, UpstreamEvent::PeekData);
    assert!(matches!(d, AttemptDecision::Commit));
    assert_eq!(attempts, 2);
    assert_eq!(req.model, "anthropic-sonnet-4-5");
    for m in &req.messages {
        if let MessageContent::Blocks(bs) = &m.content {
            for b in bs {
                assert!(!matches!(b.kind, BlockKind::Thinking { .. }));
                assert!(!matches!(b.kind, BlockKind::RedactedThinking { .. }));
            }
        }
    }
    // The repair prompt reached the last user message.
    match &req.messages.last().unwrap().content {
        MessageContent::Text(s) => assert!(s.ends_with(THINKING_REPAIR_PROMPT)),
        MessageContent::Blocks(_) => panic!("expected text content"),
    }
}

#[test]
fn attempts_never_exceed_the_bound() {
    // Three accounts: the bound is three; after it, the loop surfaces the
    // last status as a rate-limit error.
    let mut state = AttemptState::new(3);
    let ev = || UpstreamEvent::HttpError {
        status: 429,
        retry_after_secs: Some(30),
        body: "quota".to_string(),
    };
    let mut calls = 1;
    loop {
        match on_upstream_event(&mut state, ev()) {
            AttemptDecision::RetryNext { .. } => {
                calls += 1;
                assert!(calls <= 3);
            }
            AttemptDecision::Fail { status, kind, .. } => {
                assert_eq!(status, 429);
                assert_eq!(kind, AnthropicErrorKind::RateLimit);
                assert_eq!(kind.wire_name(), "rate_limit_error");
                break;
            }
            AttemptDecision::Commit => panic!("no data was ever seen"),
        }
    }
    assert_eq!(calls, 3);
}

#[test]
fn prompt_too_long_fails_immediately() {
    let mut state = AttemptState::new(3);
    let d = on_upstream_event(
        &mut state,
        UpstreamEvent::HttpError {
            status: 400,
            retry_after_secs: None,
            body: "prompt is too long: exceeds the limit".to_string(),
        },
    );
    match d {
        AttemptDecision::Fail { status, kind, message } => {
            assert_eq!(status, 400);
            assert_eq!(kind, AnthropicErrorKind::InvalidRequest);
            assert!(message.contains("too long"));
        }
        _ => panic!("expected an immediate failure"),
    }
}

#[test]
fn sse_events_come_in_the_wire_order() {
    // A thinking prelude with its signature, two text deltas, a tool call,
    // then the end: every payload comes through, blocks are bracketed, and
    // the wire order message_start .. message_delta, message_stop holds.
    let mut seq = SseSequencer::new();
    let mut events = Vec::new();
    events.extend(seq.feed(SseItem::ThinkingDelta("hm".to_string())));
    events.extend(seq.feed(SseItem::ThinkingSignature("s".repeat(8))));
    events.extend(seq.feed(SseItem::TextDelta("Hel".to_string())));
    events.extend(seq.feed(SseItem::TextDelta("lo".to_string())));
    events.extend(seq.feed(SseItem::ToolCall {
        id: "t1".to_string(),
        name: "lookup".to_string(),
        args_json: "{}".to_string(),
    }));
    events.extend(seq.feed(SseItem::End));
    assert_eq!(
        events,
        vec![
            SseEvent::MessageStart,
            SseEvent::ThinkingBlockStart(0),
            SseEvent::ThinkingDelta(0, "hm".to_string()),
            SseEvent::SignatureDelta(0, "s".repeat(8)),
            SseEvent::ContentBlockStop(0),
            SseEvent::TextBlockStart(1),
            SseEvent::TextDelta(1, "Hel".to_string()),
            SseEvent::TextDelta(1, "lo".to_string()),
            SseEvent::ContentBlockStop(1),
            SseEvent::ToolUseBlockStart(2, "t1".to_string(), "lookup".to_string()),
            SseEvent::InputJsonDelta(2, "{}".to_string()),
            SseEvent::ContentBlockStop(2),
            SseEvent::MessageDelta,
            SseEvent::MessageStop,
        ]
    );
    // Nothing follows message_stop.
    assert!(seq.feed(SseItem::TextDelta("late".to_string())).is_empty());
}

#[test]
fn thinking_recovery_beats_too_long() {
    // A 400 carrying both a thinking-signature marker and a too-long marker
    // still takes the one-shot strip-thinking recovery.
    assert_eq!(
        determine_retry_strategy(400, "Invalid `signature`; prompt is too long", false),
        RetryStrategy::FixedDelay(200)
    );
    let mut state = AttemptState::new(3);
    let d = on_upstream_event(
        &mut state,
        UpstreamEvent::HttpError {
            status: 400,
            retry_after_secs: None,
            body: "Invalid `signature`; prompt is too long".to_string(),
        },
    );
    match d {
        AttemptDecision::RetryNext { delay_ms, strip_thinking } => {
            assert_eq!(delay_ms, 200);
            assert!(strip_thinking);
        }
        _ => panic!("the recovery must win over the too-long failure"),
    }
}

#[test]
fn lease_errors_rewrite_revoked_grants() {
    assert_eq!(
        sanitize_lease_error("refresh failed: invalid_grant"),
        INVALID_GRANT_GUIDANCE
    );
    assert_eq!(sanitize_lease_error("plain outage"), "plain outage");
}

#[test]
fn warmup_probes_are_answered_locally() {
    let probe = request(
        "anthropic-sonnet-4-5",
        vec![Message {
            role: "user".to_string(),
            content: MessageContent::Text("Warmup ping".to_string()),
            cache_control: None,
        }],
    );
    assert!(is_warmup_request(&probe));
    let real = request(
        "anthropic-sonnet-4-5",
        vec![Message {
            role: "user".to_string(),
            content: MessageContent::Text("hello".to_string()),
            cache_control: None,
        }],
    );
    assert!(!is_warmup_request(&real));

    let resp = create_warmup_response("anthropic-sonnet-4-5");
    assert_eq!(resp.model, "anthropic-sonnet-4-5");
    assert_eq!(resp.role, "assistant");
    assert_eq!(resp.content.len(), 1);
    match &resp.content[0].kind {
        BlockKind::Text { text } => assert_eq!(text, WARMUP_REPLY_TEXT),
        _ => panic!("expected the fixed text block"),
    }
    assert_eq!(resp.stop_reason.as_deref(), Some("end_turn"));
    assert_eq!(resp.usage.input_tokens, 0);
    assert_eq!(resp.usage.output_tokens, 0);
}

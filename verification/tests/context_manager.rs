use proxy_core::calibrator::Calibrator;
use proxy_core::context::{build_forked_request, build_summary_request,
    compress_thinking_preserve_signature, estimate_token_usage, purify_history,
    run_progressive_compression, trim_tool_messages, PurificationStrategy,
    CONTEXT_SUMMARY_PROMPT, FORK_SUMMARY_PREFIX, THINKING_STUB_CHARS, TOOL_ELIDED_TEXT};
use proxy_core::models::{BlockKind, AnthropicRequest, ContentBlock, Message, MessageContent,
    SamplingParams};

fn user_text(t: &str) -> Message {
    Message { role: "user".to_string(), content: MessageContent::Text(t.to_string()), cache_control: None }
}

fn tool_message(id: &str) -> Message {
    Message {
        role: "assistant".to_string(),
        content: MessageContent::Blocks(vec![ContentBlock {
            kind: BlockKind::ToolUse {
                id: id.to_string(),
                name: "f".to_string(),
                input_json: "{}".to_string(),
            },
            cache_control: None,
        }]),
        cache_control: None,
    }
}

fn thinking_message(len: usize) -> Message {
    Message {
        role: "assistant".to_string(),
        content: MessageContent::Blocks(vec![ContentBlock {
            kind: BlockKind::Thinking { thinking: "t".repeat(len), signature: "s".repeat(64) },
            cache_control: None,
        }]),
        cache_control: None,
    }
}

fn request(msgs: Vec<Message>) -> AnthropicRequest {
    AnthropicRequest {
        model: "anthropic-sonnet-4-5".to_string(),
        stream: false,
        system: None,
        messages: msgs,
        tools: None,
        thinking: None,
        sampling: SamplingParams {
            max_tokens: None,
            temperature_milli: None,
            top_p_milli: None,
            top_k: None,
        },
        size: None,
        quality: None,
    }
}

#[test]
fn estimator_has_exact_structural_value() {
    // One user text message of 8 characters: 8 per message + 8/4 + 4.
    let req = request(vec![user_text("12345678")]);
    assert_eq!(estimate_token_usage(&req), 8 + 2 + 4);
    // A system instruction adds a quarter of its characters.
    let mut with_sys = request(vec![user_text("12345678")]);
    with_sys.system = Some("abcd".to_string());
    assert_eq!(estimate_token_usage(&with_sys), 8 + 2 + 4 + 1);
}

#[test]
fn trim_keeps_last_five_tool_messages() {
    let mut msgs: Vec<Message> = (0..7).map(|i| tool_message(&format!("t{}", i))).collect();
    let changed = trim_tool_messages(&mut msgs, 5);
    assert!(changed);
    // The two oldest tool messages were elided to placeholder text.
    for (i, m) in msgs.iter().enumerate() {
        if let MessageContent::Blocks(bs) = &m.content {
            match &bs[0].kind {
                BlockKind::Text { text } => {
                    assert!(i < 2);
                    assert_eq!(text, TOOL_ELIDED_TEXT);
                }
                BlockKind::ToolUse { .. } => assert!(i >= 2),
                _ => panic!("unexpected block"),
            }
        }
    }
    // A second pass has nothing more to elide.
    let mut again = msgs.clone();
    assert!(!trim_tool_messages(&mut again, 5));
}

#[test]
fn thinking_compression_preserves_signatures() {
    let mut msgs = vec![
        thinking_message(THINKING_STUB_CHARS + 100),
        thinking_message(10),
    ];
    let changed = compress_thinking_preserve_signature(&mut msgs, 1);
    assert!(changed);
    match &msgs[0].content {
        MessageContent::Blocks(bs) => match &bs[0].kind {
            BlockKind::Thinking { thinking, signature } => {
                assert_eq!(thinking.chars().count(), THINKING_STUB_CHARS);
                assert_eq!(signature, &"s".repeat(64));
            }
            _ => panic!("expected thinking"),
        },
        _ => panic!("expected blocks"),
    }
    // The most recent thinking message stays whole.
    match &msgs[1].content {
        MessageContent::Blocks(bs) => match &bs[0].kind {
            BlockKind::Thinking { thinking, .. } => assert_eq!(thinking.chars().count(), 10),
            _ => panic!("expected thinking"),
        },
        _ => panic!("expected blocks"),
    }
}

#[test]
fn aggressive_purification_keeps_only_text() {
    let mut msgs = vec![
        user_text("keep"),
        tool_message("t"),
        Message {
            role: "assistant".to_string(),
            content: MessageContent::Blocks(vec![
                ContentBlock {
                    kind: BlockKind::Text { text: "a".to_string() },
                    cache_control: None,
                },
                ContentBlock {
                    kind: BlockKind::Thinking {
                        thinking: "x".to_string(),
                        signature: "s".repeat(64),
                    },
                    cache_control: None,
                },
            ]),
            cache_control: None,
        },
    ];
    purify_history(&mut msgs, PurificationStrategy::Aggressive);
    // The all-tool message disappeared; the mixed one kept its text block.
    assert_eq!(msgs.len(), 2);
    match &msgs[1].content {
        MessageContent::Blocks(bs) => {
            assert_eq!(bs.len(), 1);
            assert!(matches!(bs[0].kind, BlockKind::Text { .. }));
        }
        _ => panic!("expected blocks"),
    }
}

#[test]
fn calibrator_stays_clamped_and_tracks_ratio() {
    let mut c = Calibrator::new();
    assert_eq!(c.get_factor_milli(), 1000);
    // Actual twice the estimate: one EWMA step of weight 1/10.
    c.update(100, 200);
    assert_eq!(c.get_factor_milli(), (9 * 1000 + 2000) / 10);
    // Extreme observations never push the factor outside [0.5, 2.0].
    for _ in 0..100 {
        c.update(1, 1_000_000);
    }
    assert_eq!(c.get_factor_milli(), 2000);
    for _ in 0..100 {
        c.update(1_000_000, 1);
    }
    assert_eq!(c.get_factor_milli(), 500);
    // A zero estimate teaches nothing.
    let before = c.get_factor_milli();
    c.update(0, 999);
    assert_eq!(c.get_factor_milli(), before);
    assert_eq!(c.calibrate(1000), 500);
    // Calibration rounds to the nearest token: 3 * 0.5 = 1.5 rounds to 2.
    assert_eq!(c.calibrate(3), 2);
}

#[test]
fn cascade_asks_for_summary_only_under_pressure() {
    let cal = Calibrator::new();
    // A tiny request under every threshold: untouched, no summary.
    let mut small = request(vec![user_text("hi")]);
    let (purified, needs) =
        run_progressive_compression(&mut small, &cal, 500, 700, 900, 1_000, true);
    assert!(!purified);
    assert!(!needs);
    // A big plain-text request over the third threshold with nothing to
    // trim or compress: the fork is called for.
    let mut big = request(vec![user_text(&"x".repeat(8000))]);
    let (purified, needs) =
        run_progressive_compression(&mut big, &cal, 500, 700, 900, 1_000, true);
    assert!(!purified);
    assert!(needs);
    // Disabled, nothing moves.
    let mut big2 = request(vec![user_text(&"x".repeat(8000))]);
    let (p2, n2) = run_progressive_compression(&mut big2, &cal, 500, 700, 900, 1_000, false);
    assert!(!p2 && !n2);
}

#[test]
fn fork_builders_shrink_the_history() {
    let req = request(vec![user_text("a"), user_text("b"), user_text("c"), user_text("d")]);
    let summary_req = build_summary_request(&req);
    assert_eq!(summary_req.messages.len(), 5);
    assert!(!summary_req.stream);
    assert!(summary_req.tools.is_none());
    match &summary_req.messages.last().unwrap().content {
        MessageContent::Text(s) => assert_eq!(s, CONTEXT_SUMMARY_PROMPT),
        _ => panic!("expected the summary prompt"),
    }
    let forked = build_forked_request(&req, "the gist");
    assert_eq!(forked.messages.len(), 2);
    assert!(forked.messages.len() < req.messages.len());
    match &forked.messages[0].content {
        MessageContent::Text(s) => {
            assert_eq!(s, &format!("{}the gist", FORK_SUMMARY_PREFIX));
        }
        _ => panic!("expected the summary turn"),
    }
    match &forked.messages[1].content {
        MessageContent::Text(s) => assert_eq!(s, "d"),
        _ => panic!("expected the original last message"),
    }
}

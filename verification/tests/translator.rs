use proxy_core::models::{BlockKind, AnthropicRequest, ContentBlock, GeminiCandidate, GeminiContent, ThinkingConfig,
    GeminiPart, GeminiResponse, GeminiUsage, Message, MessageContent, SamplingParams};
use proxy_core::transform::{collect_stream_chunks, response_plain_text,
    transform_anthropic_request_in, transform_response};

fn simple_request(model: &str, stream: bool, text: &str) -> AnthropicRequest {
    AnthropicRequest {
        model: model.to_string(),
        stream,
        system: Some("be brief".to_string()),
        messages: vec![Message {
            role: "user".to_string(),
            content: MessageContent::Text(text.to_string()),
            cache_control: None,
        }],
        tools: None,
        thinking: None,
        sampling: SamplingParams {
            max_tokens: Some(256),
            temperature_milli: Some(700),
            top_p_milli: None,
            top_k: None,
        },
        size: None,
        quality: None,
    }
}

#[test]
fn request_translation_builds_the_envelope() {
    let req = simple_request("anthropic-sonnet-4-5", true, "Hello");
    let env = transform_anthropic_request_in(&req, "proj-1", false).unwrap();
    assert_eq!(env.project, "proj-1");
    assert_eq!(env.model, "anthropic-sonnet-4-5");
    assert_eq!(env.user_agent, "antigravity");
    assert_eq!(env.request_type, "agent");
    assert!(env.request_id.starts_with("agent-"));
    assert_eq!(env.request_id.len(), 42);
    assert_eq!(env.request.system_instruction.as_deref(), Some("be brief"));
    assert_eq!(env.request.contents.len(), 1);
    assert_eq!(env.request.contents[0].role, "user");
    assert_eq!(
        env.request.contents[0].parts,
        vec![GeminiPart::Text { text: "Hello".to_string() }]
    );
    assert_eq!(env.request.safety_settings.len(), 5);
    assert!(env.request.safety_settings.iter().all(|s| s.threshold == "OFF"));
    assert_eq!(env.request.generation_config.max_output_tokens, Some(256));
    assert_eq!(env.request.generation_config.temperature_milli, Some(700));
    assert!(env.request.generation_config.candidate_count.is_none());
    assert!(env.request.generation_config.image_config.is_none());
    assert!(!env.request.generation_config.include_thoughts);
}

#[test]
fn thinking_enabled_only_with_validly_signed_history() {
    let sig_ok = "g".repeat(64);
    let mut req = AnthropicRequest {
        thinking: Some(ThinkingConfig { enabled: true, budget_tokens: 1024 }),
        messages: vec![
            Message {
                role: "assistant".to_string(),
                content: MessageContent::Blocks(vec![ContentBlock {
                    kind: BlockKind::Thinking {
                        thinking: "why".to_string(),
                        signature: sig_ok,
                    },
                    cache_control: None,
                }]),
                cache_control: None,
            },
            Message {
                role: "user".to_string(),
                content: MessageContent::Text("q".to_string()),
                cache_control: None,
            },
        ],
        ..simple_request("m", true, "unused")
    };
    let env = transform_anthropic_request_in(&req, "p", false).unwrap();
    assert!(env.request.generation_config.include_thoughts);
    assert_eq!(env.request.generation_config.thinking_budget, Some(1024));
    // A signatureless thinking block in the history disables thinking.
    req.messages.insert(0, Message {
        role: "assistant".to_string(),
        content: MessageContent::Blocks(vec![ContentBlock {
            kind: BlockKind::Thinking { thinking: "bad".to_string(), signature: "x".to_string() },
            cache_control: None,
        }]),
        cache_control: None,
    });
    let env = transform_anthropic_request_in(&req, "p", false).unwrap();
    assert!(!env.request.generation_config.include_thoughts);
    assert!(env.request.generation_config.thinking_budget.is_none());
    // A model that cannot think keeps thinking off even with a clean history.
    let mut lite = simple_request("gemini-2.5-flash-lite", true, "q");
    lite.thinking = Some(ThinkingConfig { enabled: true, budget_tokens: 64 });
    let env = transform_anthropic_request_in(&lite, "p", false).unwrap();
    assert!(!env.request.generation_config.include_thoughts);
}

#[test]
fn empty_history_is_rejected() {
    let mut req = simple_request("m", false, "x");
    req.messages.clear();
    assert!(transform_anthropic_request_in(&req, "p", false).is_err());
}

#[test]
fn thinking_parts_sort_first_and_round_trip() {
    // An assistant turn with text before thinking: the translation puts the
    // thought first; echoing the parts back preserves that stable order.
    let sig = "g".repeat(64);
    let req = AnthropicRequest {
        messages: vec![
            Message {
                role: "user".to_string(),
                content: MessageContent::Text("q".to_string()),
                cache_control: None,
            },
            Message {
                role: "assistant".to_string(),
                content: MessageContent::Blocks(vec![
                    ContentBlock {
                        kind: BlockKind::Text { text: "answer".to_string() },
                        cache_control: None,
                    },
                    ContentBlock {
                        kind: BlockKind::Thinking {
                            thinking: "why".to_string(),
                            signature: sig.clone(),
                        },
                        cache_control: None,
                    },
                ]),
                cache_control: None,
            },
        ],
        ..simple_request("anthropic-sonnet-4-5", true, "unused")
    };
    let env = transform_anthropic_request_in(&req, "p", false).unwrap();
    assert_eq!(env.request.contents.len(), 2);
    assert_eq!(env.request.contents[0].role, "user");
    assert_eq!(env.request.contents[1].role, "model");
    let parts = &env.request.contents[1].parts;
    assert_eq!(parts.len(), 2);
    assert!(matches!(parts[0], GeminiPart::Thought { .. }));
    assert!(matches!(parts[1], GeminiPart::Text { .. }));

    // Mocked upstream echo of those parts.
    let echo = GeminiResponse {
        candidates: vec![GeminiCandidate {
            content: GeminiContent { role: "model".to_string(), parts: parts.clone() },
            finish_reason: Some("STOP".to_string()),
        }],
        usage: Some(GeminiUsage { prompt_tokens: 10, candidates_tokens: 4, cached_tokens: None }),
    };
    let resp = transform_response(echo, false, 2_000_000, "anthropic-sonnet-4-5").unwrap();
    assert_eq!(resp.role, "assistant");
    assert_eq!(resp.stop_reason.as_deref(), Some("end_turn"));
    assert_eq!(resp.content.len(), 2);
    match &resp.content[0].kind {
        BlockKind::Thinking { thinking, signature } => {
            assert_eq!(thinking, "why");
            assert_eq!(signature, &sig);
        }
        _ => panic!("thinking must come back first"),
    }
    match &resp.content[1].kind {
        BlockKind::Text { text } => assert_eq!(text, "answer"),
        _ => panic!("text must come back second"),
    }
    assert_eq!(resp.usage.input_tokens, 10);
    assert_eq!(resp.usage.output_tokens, 4);
}

#[test]
fn strip_thinking_turns_thought_into_text() {
    let sig = "g".repeat(64);
    let req = AnthropicRequest {
        messages: vec![Message {
            role: "assistant".to_string(),
            content: MessageContent::Blocks(vec![ContentBlock {
                kind: BlockKind::Thinking { thinking: "why".to_string(), signature: sig },
                cache_control: None,
            }]),
            cache_control: None,
        }],
        ..simple_request("m", true, "unused")
    };
    let env = transform_anthropic_request_in(&req, "p", true).unwrap();
    let parts = &env.request.contents[0].parts;
    assert_eq!(parts.len(), 1);
    assert_eq!(parts[0], GeminiPart::Text { text: "why".to_string() });
    assert!(env.request.generation_config.thinking_budget.is_none());
}

#[test]
fn no_candidates_is_an_error_and_scaling_caps_usage() {
    let empty = GeminiResponse { candidates: Vec::new(), usage: None };
    assert!(transform_response(empty, false, 1_000_000, "m").is_err());

    let resp = GeminiResponse {
        candidates: vec![GeminiCandidate {
            content: GeminiContent { role: "model".to_string(), parts: Vec::new() },
            finish_reason: Some("MAX_TOKENS".to_string()),
        }],
        usage: Some(GeminiUsage {
            prompt_tokens: 3_000_000,
            candidates_tokens: 5,
            cached_tokens: Some(7),
        }),
    };
    let r = transform_response(resp, true, 1_000_000, "m").unwrap();
    assert_eq!(r.usage.input_tokens, 1_000_000);
    assert_eq!(r.usage.output_tokens, 5);
    assert_eq!(r.usage.cache_read_input_tokens, Some(7));
    assert_eq!(r.stop_reason.as_deref(), Some("max_tokens"));
}

#[test]
fn stream_chunks_fold_to_one_candidate() {
    let chunk = |parts: Vec<GeminiPart>, usage: Option<GeminiUsage>, finish: Option<&str>| {
        GeminiResponse {
            candidates: vec![GeminiCandidate {
                content: GeminiContent { role: "model".to_string(), parts },
                finish_reason: finish.map(|f| f.to_string()),
            }],
            usage,
        }
    };
    let chunks = vec![
        chunk(vec![GeminiPart::Text { text: "Hel".to_string() }], None, None),
        chunk(
            vec![GeminiPart::Text { text: "lo".to_string() }],
            Some(GeminiUsage { prompt_tokens: 9, candidates_tokens: 2, cached_tokens: None }),
            Some("STOP"),
        ),
        GeminiResponse { candidates: Vec::new(), usage: None },
    ];
    let g = collect_stream_chunks(chunks);
    assert_eq!(g.candidates.len(), 1);
    assert_eq!(g.candidates[0].content.role, "model");
    assert_eq!(
        g.candidates[0].content.parts,
        vec![
            GeminiPart::Text { text: "Hel".to_string() },
            GeminiPart::Text { text: "lo".to_string() },
        ]
    );
    assert_eq!(g.candidates[0].finish_reason.as_deref(), Some("STOP"));
    assert_eq!(
        g.usage,
        Some(GeminiUsage { prompt_tokens: 9, candidates_tokens: 2, cached_tokens: None })
    );
    assert_eq!(response_plain_text(&g), "Hello");
    // The fold feeds the response translator unchanged.
    let resp = transform_response(g, false, 1_000_000, "m").unwrap();
    assert_eq!(resp.usage.input_tokens, 9);
    assert_eq!(resp.usage.output_tokens, 2);
}

use proxy_core::cleanup::{clean_cache_control_from_messages, cleanse_history,
    close_tool_loop_for_thinking, filter_invalid_thinking_blocks_with_family,
    merge_consecutive_messages, MIN_SIGNATURE_LENGTH, TOOL_LOOP_CLOSING_TEXT};
use proxy_core::models::{BlockKind, ContentBlock, Message, MessageContent};

fn text_block(t: &str) -> ContentBlock {
    ContentBlock { kind: BlockKind::Text { text: t.to_string() }, cache_control: None }
}

fn cached_text_block(t: &str) -> ContentBlock {
    ContentBlock {
        kind: BlockKind::Text { text: t.to_string() },
        cache_control: Some("ephemeral".to_string()),
    }
}

fn thinking_block(text: &str, sig: &str) -> ContentBlock {
    ContentBlock {
        kind: BlockKind::Thinking { thinking: text.to_string(), signature: sig.to_string() },
        cache_control: None,
    }
}

fn user_text(t: &str) -> Message {
    Message { role: "user".to_string(), content: MessageContent::Text(t.to_string()), cache_control: None }
}

fn assistant_blocks(bs: Vec<ContentBlock>) -> Message {
    Message { role: "assistant".to_string(), content: MessageContent::Blocks(bs), cache_control: None }
}

#[test]
fn cache_hints_are_removed_everywhere() {
    let mut msgs = vec![
        Message {
            role: "user".to_string(),
            content: MessageContent::Blocks(vec![cached_text_block("a"), text_block("b")]),
            cache_control: Some("ephemeral".to_string()),
        },
        user_text("c"),
    ];
    clean_cache_control_from_messages(&mut msgs);
    assert_eq!(msgs.len(), 2);
    assert!(msgs[0].cache_control.is_none());
    match &msgs[0].content {
        MessageContent::Blocks(bs) => {
            assert!(bs.iter().all(|b| b.cache_control.is_none()));
        }
        _ => panic!("expected blocks"),
    }
}

#[test]
fn clean_cache_control_is_idempotent_on_values() {
    let mut once = vec![Message {
        role: "user".to_string(),
        content: MessageContent::Blocks(vec![cached_text_block("a")]),
        cache_control: Some("x".to_string()),
    }];
    clean_cache_control_from_messages(&mut once);
    let mut twice = once.clone();
    clean_cache_control_from_messages(&mut twice);
    assert_eq!(once, twice);
}

#[test]
fn merge_combines_adjacent_same_role() {
    let mut msgs = vec![user_text("a"), user_text("b"), Message {
        role: "assistant".to_string(),
        content: MessageContent::Text("c".to_string()),
        cache_control: None,
    }];
    merge_consecutive_messages(&mut msgs);
    assert_eq!(msgs.len(), 2);
    assert_eq!(msgs[0].role, "user");
    match &msgs[0].content {
        MessageContent::Blocks(bs) => assert_eq!(bs.len(), 2),
        _ => panic!("expected merged blocks"),
    }
    assert_eq!(msgs[1].role, "assistant");
}

#[test]
fn merge_is_idempotent_on_values() {
    let mut once = vec![user_text("a"), user_text("b"), user_text("c")];
    merge_consecutive_messages(&mut once);
    let mut twice = once.clone();
    merge_consecutive_messages(&mut twice);
    assert_eq!(once, twice);
    assert_eq!(once.len(), 1);
}

#[test]
fn filter_drops_short_signatures() {
    let long_sig = "s".repeat(MIN_SIGNATURE_LENGTH);
    let mut msgs = vec![assistant_blocks(vec![
        thinking_block("keep", &long_sig),
        thinking_block("drop", "short"),
        text_block("t"),
    ])];
    filter_invalid_thinking_blocks_with_family(&mut msgs, "anthropic");
    match &msgs[0].content {
        MessageContent::Blocks(bs) => {
            assert_eq!(bs.len(), 2);
            match &bs[0].kind {
                BlockKind::Thinking { signature, .. } => assert_eq!(signature, &long_sig),
                _ => panic!("expected the surviving thinking block first"),
            }
        }
        _ => panic!("expected blocks"),
    }
}

#[test]
fn filter_drops_redacted_thinking_for_gemini() {
    let mut msgs = vec![assistant_blocks(vec![
        ContentBlock {
            kind: BlockKind::RedactedThinking { data: "opaque".to_string() },
            cache_control: None,
        },
        text_block("t"),
    ])];
    filter_invalid_thinking_blocks_with_family(&mut msgs, "gemini");
    match &msgs[0].content {
        MessageContent::Blocks(bs) => assert_eq!(bs.len(), 1),
        _ => panic!("expected blocks"),
    }
}

#[test]
fn tool_loop_close_appends_text() {
    let long_sig = "s".repeat(MIN_SIGNATURE_LENGTH);
    let mut msgs = vec![
        user_text("q"),
        assistant_blocks(vec![
            thinking_block("th", &long_sig),
            ContentBlock {
                kind: BlockKind::ToolUse {
                    id: "t1".to_string(),
                    name: "lookup".to_string(),
                    input_json: "{}".to_string(),
                },
                cache_control: None,
            },
        ]),
    ];
    close_tool_loop_for_thinking(&mut msgs);
    match &msgs[1].content {
        MessageContent::Blocks(bs) => {
            assert_eq!(bs.len(), 3);
            match &bs[2].kind {
                BlockKind::Text { text } => assert_eq!(text, TOOL_LOOP_CLOSING_TEXT),
                _ => panic!("expected the synthetic closing text block"),
            }
        }
        _ => panic!("expected blocks"),
    }
}

#[test]
fn cleanse_pipeline_establishes_all_three_properties() {
    let long_sig = "s".repeat(MIN_SIGNATURE_LENGTH);
    let mut msgs = vec![
        Message {
            role: "user".to_string(),
            content: MessageContent::Blocks(vec![cached_text_block("a")]),
            cache_control: Some("x".to_string()),
        },
        user_text("b"),
        assistant_blocks(vec![thinking_block("ok", &long_sig), thinking_block("bad", "x")]),
    ];
    cleanse_history(&mut msgs, "anthropic", true);
    // Roles alternate after the same-role merge.
    for w in msgs.windows(2) {
        assert_ne!(w[0].role, w[1].role);
    }
    // No cache hint and no short-signature thinking block survives.
    for m in &msgs {
        assert!(m.cache_control.is_none());
        if let MessageContent::Blocks(bs) = &m.content {
            for b in bs {
                assert!(b.cache_control.is_none());
                if let BlockKind::Thinking { signature, .. } = &b.kind {
                    assert!(signature.chars().count() >= MIN_SIGNATURE_LENGTH);
                }
            }
        }
    }
}

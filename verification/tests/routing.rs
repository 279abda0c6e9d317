use proxy_core::arbiter::{decide_use_fallback, DispatchMode};
use proxy_core::images::{collect_image_results, build_image_edit_body,
    build_image_generation_body, edit_prompt_with_style, edit_quality_of_image_size,
    enhance_prompt, ImageOut, ImageTaskOutcome};
use proxy_core::model_mapping::{canonicalize_model_for_recovery, detect_background_task_type,
    get_context_limit_for_model, model_family, normalize_to_standard_id, resolve_model_route,
    select_background_model, BackgroundTaskType, TITLE_TASK_MARKER};
use proxy_core::models::{AnthropicRequest, GeminiPart, Message, MessageContent, SamplingParams};
use proxy_core::session::extract_session_id;
use proxy_core::sticky_config::{SchedulingMode, StickySessionConfig};

fn request_with_system(system: Option<&str>, first: &str) -> AnthropicRequest {
    AnthropicRequest {
        model: "anthropic-sonnet-4-5".to_string(),
        stream: false,
        system: system.map(|s| s.to_string()),
        messages: vec![Message {
            role: "user".to_string(),
            content: MessageContent::Text(first.to_string()),
            cache_control: None,
        }],
        tools: None,
        thinking: None,
        sampling: SamplingParams {
            max_tokens: None,
            temperature_milli: None,
            top_p_milli: None,
            top_k: None,
        },
        size: None,
        quality: None,
    }
}

#[test]
fn model_routing_and_canonicalization() {
    let overrides = vec![("anthropic-sonnet-4-5".to_string(), "gemini-3-pro".to_string())];
    assert_eq!(resolve_model_route("anthropic-sonnet-4-5", &overrides), "gemini-3-pro");
    let none: Vec<(String, String)> = Vec::new();
    assert_eq!(
        resolve_model_route("anthropic-sonnet-4-5-20250929", &none),
        "anthropic-sonnet-4-5"
    );
    assert_eq!(
        resolve_model_route("anthropic-sonnet-4-5-20250929-thinking", &none),
        "anthropic-sonnet-4-5-thinking"
    );
    assert_eq!(
        canonicalize_model_for_recovery("anthropic-sonnet-4-5-20250929-thinking"),
        "anthropic-sonnet-4-5"
    );
    // The fold is keyed on the version markers, so it works for every vendor
    // prefix an alias carries.
    assert_eq!(resolve_model_route("other-sonnet-4-5-20250929", &none), "other-sonnet-4-5");
    assert_eq!(canonicalize_model_for_recovery("other-opus-4-1-thinking"), "other-opus-4-5");
    assert_eq!(normalize_to_standard_id("anthropic-opus-4-1"), Some("anthropic-opus-4-5".to_string()));
    assert_eq!(
        normalize_to_standard_id("other-sonnet-4-5-20250929"),
        Some("other-sonnet-4-5".to_string())
    );
    assert_eq!(normalize_to_standard_id("mystery-model"), None);
    assert_eq!(model_family("gemini-2.5-flash"), "gemini");
    assert_eq!(model_family("anthropic-sonnet-4-5"), "anthropic");
    assert_eq!(get_context_limit_for_model("gemini-2.5-flash"), 1_000_000);
    assert_eq!(get_context_limit_for_model("anthropic-sonnet-4-5"), 2_000_000);
}

#[test]
fn background_tasks_redirect_to_cheap_models() {
    let title = request_with_system(Some(TITLE_TASK_MARKER), "x");
    assert_eq!(detect_background_task_type(&title), Some(BackgroundTaskType::Title));
    let normal = request_with_system(None, "hello there");
    assert_eq!(detect_background_task_type(&normal), None);
    assert_eq!(select_background_model(BackgroundTaskType::Title), "gemini-2.5-flash-lite");
    assert_eq!(select_background_model(BackgroundTaskType::Summary), "gemini-2.5-flash");
}

#[test]
fn arbiter_decides_per_mode() {
    // Disabled or off: never.
    assert!(!decide_use_fallback(false, DispatchMode::Exclusive, 3, true, 0));
    assert!(!decide_use_fallback(true, DispatchMode::Off, 3, true, 0));
    // Exclusive: always.
    assert!(decide_use_fallback(true, DispatchMode::Exclusive, 3, true, 0));
    // Fallback: empty pool or nothing available.
    assert!(decide_use_fallback(true, DispatchMode::Fallback, 0, false, 0));
    assert!(decide_use_fallback(true, DispatchMode::Fallback, 2, false, 0));
    assert!(!decide_use_fallback(true, DispatchMode::Fallback, 2, true, 0));
    // Pooled: slot zero of a (pool + 1) cycle.
    assert!(decide_use_fallback(true, DispatchMode::Pooled, 2, true, 0));
    assert!(!decide_use_fallback(true, DispatchMode::Pooled, 2, true, 1));
    assert!(!decide_use_fallback(true, DispatchMode::Pooled, 2, true, 2));
    assert!(decide_use_fallback(true, DispatchMode::Pooled, 2, true, 3));
}

#[test]
fn session_ids_are_stable_hex_fingerprints() {
    let a = request_with_system(Some("sys"), "hello");
    let b = request_with_system(Some("sys"), "hello");
    let c = request_with_system(Some("sys"), "other");
    let ia = extract_session_id(&a);
    let ib = extract_session_id(&b);
    let ic = extract_session_id(&c);
    assert_eq!(ia, ib);
    assert_eq!(ia.len(), 16);
    assert!(ia.chars().all(|ch| ch.is_ascii_hexdigit() && !ch.is_ascii_uppercase()));
    assert_ne!(ia, ic);
    // The tool-set signature takes part in the fingerprint.
    let mut with_tools = request_with_system(Some("sys"), "hello");
    with_tools.tools = Some(vec![proxy_core::models::ToolDef {
        name: "lookup".to_string(),
        description: String::new(),
        input_schema_json: "{}".to_string(),
    }]);
    assert_ne!(extract_session_id(&with_tools), ia);
}

#[test]
fn default_scheduling_config() {
    let cfg = StickySessionConfig::default();
    assert_eq!(cfg.mode, SchedulingMode::Balance);
    assert_eq!(cfg.max_wait_seconds, 60);
    assert!(cfg.selected_accounts.is_empty());
    assert!(cfg.selected_models.is_empty());
    assert_eq!(SchedulingMode::default(), SchedulingMode::Balance);
}

#[test]
fn prompt_enhancement_is_exact() {
    assert_eq!(
        enhance_prompt("a cat", "hd", "vivid"),
        "a cat, (high quality, highly detailed, 4k resolution, hdr), (vivid colors, dramatic lighting, rich details)"
    );
    assert_eq!(
        enhance_prompt("a cat", "standard", "natural"),
        "a cat, (natural lighting, realistic, photorealistic)"
    );
    assert_eq!(enhance_prompt("a cat", "standard", "plain"), "a cat");
    assert_eq!(edit_quality_of_image_size(Some("4K")), Some("hd".to_string()));
    assert_eq!(edit_quality_of_image_size(Some("2K")), Some("medium".to_string()));
    assert_eq!(edit_quality_of_image_size(Some("1K")), None);
    assert_eq!(edit_prompt_with_style("p", Some("anime")), "p, style: anime");
    assert_eq!(edit_prompt_with_style("p", None), "p");
}

#[test]
fn image_bodies_carry_ids_parts_and_config() {
    let env = build_image_generation_body("proj", "a cat", "1792x1024", "hd");
    assert!(env.request_id.starts_with("agent-"));
    assert_eq!(env.model, "gemini-3-pro-image");
    assert_eq!(env.request_type, "image_gen");
    assert_eq!(env.request.contents[0].parts.len(), 1);
    let cfg = &env.request.generation_config;
    assert_eq!(cfg.candidate_count, Some(1));
    let ic = cfg.image_config.as_ref().unwrap();
    assert_eq!(ic.aspect_ratio, "16:9");
    assert_eq!(ic.image_size.as_deref(), Some("4K"));
    // A plain square size with standard quality: square ratio, no size hint.
    let env = build_image_generation_body("proj", "a cat", "1024x1024", "standard");
    let ic = env.request.generation_config.image_config.as_ref().unwrap();
    assert_eq!(ic.aspect_ratio, "1:1");
    assert!(ic.image_size.is_none());

    // The edit body encodes the raw bytes itself: the standard base64
    // alphabet, so three zero bytes become "AAAA".
    let env = build_image_edit_body(
        "proj",
        "gemini-3-pro-image",
        "edit it",
        "1024x1024",
        Some("9:16"),
        Some("4K"),
        Some(vec![0, 0, 0]),
        None,
        vec![b"hi".to_vec(), b"REF2".to_vec()],
    );
    assert!(env.request_id.starts_with("img-edit-"));
    let parts = &env.request.contents[0].parts;
    assert_eq!(parts.len(), 4);
    assert!(matches!(parts[0], GeminiPart::Text { .. }));
    match &parts[1] {
        GeminiPart::InlineData { mime_type, data } => {
            assert_eq!(mime_type, "image/png");
            assert_eq!(data, "AAAA");
        }
        _ => panic!("expected the main image"),
    }
    match &parts[2] {
        GeminiPart::InlineData { mime_type, data } => {
            assert_eq!(mime_type, "image/jpeg");
            assert_eq!(data, "aGk=");
        }
        _ => panic!("expected a reference image"),
    }
    match &parts[3] {
        GeminiPart::InlineData { mime_type, data } => {
            assert_eq!(mime_type, "image/jpeg");
            assert_eq!(data, "UkVGMg==");
        }
        _ => panic!("expected a reference image"),
    }
    // The edit's fixed generation parameters and the image config derived
    // from the explicit aspect ratio and the 4K image size.
    let cfg = &env.request.generation_config;
    assert_eq!(cfg.candidate_count, Some(1));
    assert_eq!(cfg.max_output_tokens, Some(8192));
    assert_eq!(cfg.temperature_milli, Some(1000));
    assert_eq!(cfg.top_p_milli, Some(950));
    assert_eq!(cfg.top_k, Some(40));
    assert!(cfg.stop_sequences.is_empty());
    let ic = cfg.image_config.as_ref().unwrap();
    assert_eq!(ic.aspect_ratio, "9:16");
    assert_eq!(ic.image_size.as_deref(), Some("4K"));
}

#[test]
fn image_fan_in_collects_and_joins_errors() {
    let outcomes = vec![
        ImageTaskOutcome::Parts(vec![GeminiPart::InlineData {
            mime_type: "image/png".to_string(),
            data: "QUJD".to_string(),
        }]),
        ImageTaskOutcome::Failed("boom".to_string()),
        ImageTaskOutcome::Parts(vec![GeminiPart::Text { text: "no image".to_string() }]),
    ];
    let images = collect_image_results(outcomes, true).unwrap();
    assert_eq!(images.len(), 1);
    match &images[0] {
        ImageOut::Url(u) => assert_eq!(u, "data:image/png;base64,QUJD"),
        _ => panic!("expected a data url"),
    }

    let all_failed = vec![
        ImageTaskOutcome::Failed("e1".to_string()),
        ImageTaskOutcome::Failed("e2".to_string()),
    ];
    assert_eq!(collect_image_results(all_failed, false).unwrap_err(), "e1; e2");
    let silent: Vec<ImageTaskOutcome> = Vec::new();
    assert_eq!(collect_image_results(silent, false).unwrap_err(), "No images generated");
}

#[test]
fn session_id_of_empty_fingerprint_is_the_offset_basis() {
    // No system instruction and a block-list first message: the fingerprint
    // text is empty and the id is the FNV-1a offset basis in hex.
    let mut req = request_with_system(None, "x");
    req.messages[0].content = proxy_core::models::MessageContent::Blocks(Vec::new());
    assert_eq!(extract_session_id(&req), "cbf29ce484222325");
}

//! The Anthropic-to-Gemini translator: request bodies with the upstream
//! envelope, the stable thinking-first part order, and the response mapping
//! back to Anthropic's shape.
use vstd::prelude::*;

use crate::models::{BlockKind, BlockKindV, ContentBlock, ContentBlockV, AnthropicRequest,
    AnthropicRequestV, AnthropicResponse, AnthropicUsage, GeminiContent, GeminiContentV,
    GeminiEnvelope, GeminiPart, GeminiPartV, GeminiRequestBody, GeminiResponse,
    GeminiCandidateV, GeminiResponseV, GeminiUsage, GenerationConfig, GenerationConfigV, Message,
    MessageContent, MessageContentV, MessageV, SafetySetting, SafetySettingV, ToolDef};

verus! {

// ---------------------------------------------------------------------------
// Blocks to parts
// ---------------------------------------------------------------------------

/// The Gemini part a Anthropic block becomes. With `strip_thinking`, thinking
/// text turns into plain text and redacted thinking disappears.
pub open spec fn part_of_block(b: ContentBlockV, strip_thinking: bool) -> Option<GeminiPartV> {
    match b.kind {
        BlockKindV::Text { text } => Some(GeminiPartV::Text { text }),
        BlockKindV::Image { media_type, data } => Some(
            GeminiPartV::InlineData { mime_type: media_type, data },
        ),
        BlockKindV::ToolUse { id, name, input_json } => Some(
            GeminiPartV::FunctionCall { id, name, args_json: input_json },
        ),
        BlockKindV::ToolResult { tool_use_id, content } => Some(
            GeminiPartV::FunctionResponse {
                id: tool_use_id,
                name: tool_use_id,
                response_json: content,
            },
        ),
        BlockKindV::Thinking { thinking, signature } => {
            if strip_thinking {
                if thinking.len() > 0 {
                    Some(GeminiPartV::Text { text: thinking })
                } else {
                    None
                }
            } else {
                Some(GeminiPartV::Thought { text: thinking, signature })
            }
        },
        BlockKindV::RedactedThinking { data } => {
            if strip_thinking {
                None
            } else {
                Some(GeminiPartV::Thought { text: Seq::empty(), signature: data })
            }
        },
    }
}

/// The parts of a block list, in block order.
pub open spec fn parts_of_blocks(bs: Seq<ContentBlockV>, strip: bool) -> Seq<GeminiPartV>
    decreases bs.len(),
{
    if bs.len() == 0 {
        Seq::empty()
    } else {
        let rest = parts_of_blocks(bs.drop_last(), strip);
        match part_of_block(bs.last(), strip) {
            Some(p) => rest.push(p),
            None => rest,
        }
    }
}

/// A thought part.
pub open spec fn is_thought_part(p: GeminiPartV) -> bool {
    p is Thought
}

/// Thought parts first, then the rest, each side in its original order: the
/// stable thinking-first permutation.
pub open spec fn sort_thinking_first(ps: Seq<GeminiPartV>) -> Seq<GeminiPartV> {
    ps.filter(|p: GeminiPartV| is_thought_part(p)) + ps.filter(
        |p: GeminiPartV| !is_thought_part(p),
    )
}

/// The parts of one message: plain text becomes a single text part, block
/// lists convert blockwise and are ordered thinking-first.
pub open spec fn parts_of_content(c: MessageContentV, strip: bool) -> Seq<GeminiPartV> {
    match c {
        MessageContentV::Text(s) => seq![GeminiPartV::Text { text: s }],
        MessageContentV::Blocks(bs) => sort_thinking_first(parts_of_blocks(bs, strip)),
    }
}

/// Anthropic's `assistant` is Gemini's `model`; everything else enters as
/// `user`.
pub open spec fn gemini_role(role: Seq<char>) -> Seq<char> {
    if role == "assistant"@ {
        "model"@
    } else {
        "user"@
    }
}

/// The contents list of a history: one entry per message, in order.
pub open spec fn contents_of_messages(ms: Seq<MessageV>, strip: bool) -> Seq<GeminiContentV> {
    ms.map_values(
        |m: MessageV| GeminiContentV {
            role: gemini_role(m.role),
            parts: parts_of_content(m.content, strip),
        },
    )
}

fn part_of_block_exec(b: ContentBlock, strip: bool) -> (r: Option<GeminiPart>)
    ensures
        r.deep_view() == part_of_block(b.deep_view(), strip),
{
    match b.kind {
        BlockKind::Text { text } => Some(GeminiPart::Text { text }),
        BlockKind::Image { media_type, data } => Some(
            GeminiPart::InlineData { mime_type: media_type, data },
        ),
        BlockKind::ToolUse { id, name, input_json } => Some(
            GeminiPart::FunctionCall { id, name, args_json: input_json },
        ),
        BlockKind::ToolResult { tool_use_id, content } => {
            let id2 = String::from_str(tool_use_id.as_str());
            Some(GeminiPart::FunctionResponse { id: id2, name: tool_use_id, response_json: content })
        },
        BlockKind::Thinking { thinking, signature } => {
            if strip {
                if thinking.as_str().unicode_len() > 0 {
                    Some(GeminiPart::Text { text: thinking })
                } else {
                    None
                }
            } else {
                Some(GeminiPart::Thought { text: thinking, signature })
            }
        },
        BlockKind::RedactedThinking { data } => {
            if strip {
                None
            } else {
                let empty = String::new();
                proof {
                    assert(empty@ =~= Seq::<char>::empty());
                }
                Some(GeminiPart::Thought { text: empty, signature: data })
            }
        },
    }
}

fn is_thought_part_exec(p: &GeminiPart) -> (r: bool)
    ensures
        r == is_thought_part(p.deep_view()),
{
    match p {
        GeminiPart::Thought { text, signature } => true,
        _ => false,
    }
}

fn sort_thinking_first_exec(ps: Vec<GeminiPart>) -> (r: Vec<GeminiPart>)
    ensures
        r.deep_view() == sort_thinking_first(ps.deep_view()),
{
    let ghost orig = ps.deep_view();
    let n = ps.len();
    let mut thoughts: Vec<GeminiPart> = Vec::new();
    let mut others: Vec<GeminiPart> = Vec::new();
    let mut rest = ps;
    let ghost consumed: int = 0;
    proof {
        reveal(Seq::filter);
        assert(orig.take(0) =~= Seq::<GeminiPartV>::empty());
        assert(orig.take(0).filter(|p: GeminiPartV| is_thought_part(p)) =~= Seq::<
            GeminiPartV,
        >::empty());
        assert(orig.take(0).filter(|p: GeminiPartV| !is_thought_part(p)) =~= Seq::<
            GeminiPartV,
        >::empty());
    }
    while rest.len() > 0
        invariant
            0 <= consumed <= orig.len(),
            rest.deep_view().len() == orig.len() - consumed,
            forall|k: int| 0 <= k < rest.deep_view().len() ==> rest.deep_view()[k] == orig[
                consumed + k
            ],
            thoughts.deep_view() == orig.take(consumed).filter(
                |p: GeminiPartV| is_thought_part(p),
            ),
            others.deep_view() == orig.take(consumed).filter(
                |p: GeminiPartV| !is_thought_part(p),
            ),
        decreases rest.len(),
    {
        let ghost th0 = thoughts.deep_view();
        let ghost ot0 = others.deep_view();
        let ghost rest0 = rest.deep_view();
        let p = rest.remove(0);
        proof {
            assert(rest.deep_view() =~= rest0.skip(1));
            assert(p.deep_view() == rest0[0]);
            assert(p.deep_view() == orig[consumed]);
            assert(orig.take(consumed + 1).drop_last() =~= orig.take(consumed));
            assert(orig.take(consumed + 1).last() == orig[consumed]);
            reveal(Seq::filter);
        }
        if is_thought_part_exec(&p) {
            thoughts.push(p);
            proof {
                reveal(Seq::filter);
                assert(thoughts.deep_view() =~= th0.push(orig[consumed]));
                assert(orig.take(consumed + 1).filter(|q: GeminiPartV| is_thought_part(q))
                    =~= th0.push(orig[consumed]));
                assert(orig.take(consumed + 1).filter(|q: GeminiPartV| !is_thought_part(q))
                    =~= ot0);
            }
        } else {
            others.push(p);
            proof {
                reveal(Seq::filter);
                assert(others.deep_view() =~= ot0.push(orig[consumed]));
                assert(orig.take(consumed + 1).filter(|q: GeminiPartV| !is_thought_part(q))
                    =~= ot0.push(orig[consumed]));
                assert(orig.take(consumed + 1).filter(|q: GeminiPartV| is_thought_part(q))
                    =~= th0);
            }
        }
        proof {
            consumed = consumed + 1;
        }
    }
    proof {
        assert(orig.take(consumed) =~= orig);
    }
    let mut out = thoughts;
    let ghost outv = out.deep_view();
    let mut tail = others;
    let ghost tailv = tail.deep_view();
    out.append(&mut tail);
    proof {
        assert(out.deep_view() =~= outv + tailv);
    }
    out
}

fn parts_of_blocks_exec(bs: Vec<ContentBlock>, strip: bool) -> (r: Vec<GeminiPart>)
    ensures
        r.deep_view() == parts_of_blocks(bs.deep_view(), strip),
{
    let ghost orig = bs.deep_view();
    let mut rest = bs;
    let mut out: Vec<GeminiPart> = Vec::new();
    let ghost consumed: int = 0;
    proof {
        assert(orig.take(0) =~= Seq::<ContentBlockV>::empty());
    }
    while rest.len() > 0
        invariant
            0 <= consumed <= orig.len(),
            rest.deep_view().len() == orig.len() - consumed,
            forall|k: int| 0 <= k < rest.deep_view().len() ==> rest.deep_view()[k] == orig[
                consumed + k
            ],
            out.deep_view() == parts_of_blocks(orig.take(consumed), strip),
        decreases rest.len(),
    {
        let ghost out0 = out.deep_view();
        let ghost rest0 = rest.deep_view();
        let b = rest.remove(0);
        proof {
            assert(rest.deep_view() =~= rest0.skip(1));
            assert(b.deep_view() == rest0[0]);
            assert(b.deep_view() == orig[consumed]);
            assert(orig.take(consumed + 1).drop_last() =~= orig.take(consumed));
            assert(orig.take(consumed + 1).last() == orig[consumed]);
        }
        match part_of_block_exec(b, strip) {
            Some(p) => {
                let ghost pv = p.deep_view();
                out.push(p);
                proof {
                    assert(out.deep_view() =~= out0.push(pv));
                }
            },
            None => {},
        }
        proof {
            consumed = consumed + 1;
        }
    }
    proof {
        assert(orig.take(consumed) =~= orig);
    }
    out
}

fn parts_of_content_exec(c: MessageContent, strip: bool) -> (r: Vec<GeminiPart>)
    ensures
        r.deep_view() == parts_of_content(c.deep_view(), strip),
{
    match c {
        MessageContent::Text(s) => {
            let mut v: Vec<GeminiPart> = Vec::new();
            let ghost sv = s@;
            v.push(GeminiPart::Text { text: s });
            proof {
                assert(v.deep_view() =~= seq![GeminiPartV::Text { text: sv }]);
            }
            v
        },
        MessageContent::Blocks(bs) => sort_thinking_first_exec(parts_of_blocks_exec(bs, strip)),
    }
}

// ---------------------------------------------------------------------------
// Request translation
// ---------------------------------------------------------------------------

/// The five harm categories, all set to `OFF`.
pub open spec fn safety_off(ss: Seq<SafetySettingV>) -> bool {
    &&& ss.len() == 5
    &&& ss[0].category == "HARM_CATEGORY_HARASSMENT"@
    &&& ss[1].category == "HARM_CATEGORY_HATE_SPEECH"@
    &&& ss[2].category == "HARM_CATEGORY_SEXUALLY_EXPLICIT"@
    &&& ss[3].category == "HARM_CATEGORY_DANGEROUS_CONTENT"@
    &&& ss[4].category == "HARM_CATEGORY_CIVIC_INTEGRITY"@
    &&& forall|i: int| 0 <= i < 5 ==> (#[trigger] ss[i]).threshold == "OFF"@
}

/// The five harm categories of the upstream body, all set to `OFF`.
pub fn build_safety_settings() -> (r: Vec<SafetySetting>)
    ensures
        safety_off(r.deep_view()),
{
    let mut v: Vec<SafetySetting> = Vec::new();
    v.push(
        SafetySetting {
            category: String::from_str("HARM_CATEGORY_HARASSMENT"),
            threshold: String::from_str("OFF"),
        },
    );
    v.push(
        SafetySetting {
            category: String::from_str("HARM_CATEGORY_HATE_SPEECH"),
            threshold: String::from_str("OFF"),
        },
    );
    v.push(
        SafetySetting {
            category: String::from_str("HARM_CATEGORY_SEXUALLY_EXPLICIT"),
            threshold: String::from_str("OFF"),
        },
    );
    v.push(
        SafetySetting {
            category: String::from_str("HARM_CATEGORY_DANGEROUS_CONTENT"),
            threshold: String::from_str("OFF"),
        },
    );
    v.push(
        SafetySetting {
            category: String::from_str("HARM_CATEGORY_CIVIC_INTEGRITY"),
            threshold: String::from_str("OFF"),
        },
    );
    v
}

/// Whether a history carries only thinking blocks with acceptable
/// signatures, so thinking may stay enabled: signatureless thinking in the
/// history disables it.
pub open spec fn history_thinking_ok(ms: Seq<MessageV>) -> bool {
    crate::cleanup::no_short_thinking(ms)
}

/// The generation parameters a request translates to: sampling carried
/// over; thinking enabled exactly when the request configures it, the model
/// supports it, the history carries only validly signed thinking, and the
/// strip-thinking recovery is not active.
pub open spec fn gen_config_of(rv: AnthropicRequestV, retried_without_thinking: bool) -> GenerationConfigV {
    let thinking_on = !retried_without_thinking && rv.thinking is Some
        && crate::model_mapping::thinking_capable(rv.model) && history_thinking_ok(rv.messages);
    GenerationConfigV {
        candidate_count: None,
        max_output_tokens: rv.sampling.max_tokens,
        temperature_milli: rv.sampling.temperature_milli,
        top_p_milli: rv.sampling.top_p_milli,
        top_k: rv.sampling.top_k,
        stop_sequences: Seq::empty(),
        thinking_budget: if thinking_on {
            match rv.thinking {
                Some(t) => Some(t.budget_tokens),
                None => None,
            }
        } else {
            None
        },
        include_thoughts: thinking_on,
        image_config: None,
    }
}

/// Whether every thinking block of the history carries a signature of
/// acceptable length (the thinking-enable default reads this).
pub fn history_thinking_ok_exec(msgs: &Vec<Message>) -> (r: bool)
    ensures
        r == history_thinking_ok(msgs.deep_view()),
{
    let n = msgs.len();
    let mut i: usize = 0;
    while i < n
        invariant
            n == msgs@.len(),
            msgs.deep_view().len() == n,
            i <= n,
            forall|k: int|
                0 <= k < i ==> ((#[trigger] msgs.deep_view()[k]).content matches
                    MessageContentV::Blocks(bs) ==> forall|j: int|
                    0 <= j < bs.len() ==> ((#[trigger] bs[j]).kind matches BlockKindV::Thinking {
                        thinking,
                        signature,
                    } ==> signature.len() >= crate::cleanup::MIN_SIGNATURE_LENGTH as int)),
        decreases n - i,
    {
        match &msgs[i].content {
            MessageContent::Text(_) => {},
            MessageContent::Blocks(bs) => {
                proof {
                    assert(bs.deep_view() == (#[trigger] msgs.deep_view()[i as int]).content
                        ->Blocks_0);
                }
                let bn = bs.len();
                let mut j: usize = 0;
                while j < bn
                    invariant
                        bn == bs.deep_view().len(),
                        i < msgs.deep_view().len(),
                        msgs.deep_view()[i as int].content is Blocks,
                        bs.deep_view() == msgs.deep_view()[i as int].content->Blocks_0,
                        j <= bn,
                        forall|k: int|
                            0 <= k < j ==> ((#[trigger] bs.deep_view()[k]).kind matches
                                BlockKindV::Thinking { thinking, signature } ==> signature.len()
                                >= crate::cleanup::MIN_SIGNATURE_LENGTH as int),
                    decreases bn - j,
                {
                    match &bs[j].kind {
                        BlockKind::Thinking { thinking, signature } => {
                            if signature.as_str().unicode_len()
                                < crate::cleanup::MIN_SIGNATURE_LENGTH {
                                proof {
                                    let ghost bv = bs.deep_view()[j as int];
                                    assert(bv.kind is Thinking);
                                    assert(bv.kind->Thinking_signature.len()
                                        < crate::cleanup::MIN_SIGNATURE_LENGTH as int);
                                    assert(!history_thinking_ok(msgs.deep_view())) by {
                                        if history_thinking_ok(msgs.deep_view()) {
                                            let ms = msgs.deep_view();
                                            assert((#[trigger] ms[i as int]).content is Blocks);
                                            let bsv = ms[i as int].content->Blocks_0;
                                            assert((#[trigger] bsv[j as int]).kind matches
                                                BlockKindV::Thinking { thinking, signature }
                                                ==> signature.len()
                                                >= crate::cleanup::MIN_SIGNATURE_LENGTH as int);
                                        }
                                    }
                                }
                                return false;
                            }
                        },
                        _ => {},
                    }
                    j += 1;
                }
            },
        }
        i += 1;
    }
    true
}

/// Translates a cleansed Anthropic request into the upstream envelope. With
/// `retried_without_thinking`, thinking blocks enter as plain text and the
/// thinking configuration is dropped; thinking is also disabled when the
/// model cannot think or the history carries a signatureless thinking
/// block. The translation fails exactly when the history is empty.
pub fn transform_anthropic_request_in(
    r: &AnthropicRequest,
    project_id: &str,
    retried_without_thinking: bool,
) -> (out: Result<GeminiEnvelope, String>)
    ensures
        out is Ok <==> r.messages@.len() > 0,
        out matches Ok(env) ==> {
            let rv = r.deep_view();
            &&& env.deep_view().project == project_id@
            &&& env.deep_view().model == rv.model
            &&& env.deep_view().user_agent == "antigravity"@
            &&& env.deep_view().request_type == "agent"@
            &&& env.deep_view().request_id.len() == 42
            &&& crate::strutil::is_prefix_of(env.deep_view().request_id, "agent-"@)
            &&& env.deep_view().request.system_instruction == rv.system
            &&& env.deep_view().request.contents == contents_of_messages(
                rv.messages,
                retried_without_thinking,
            )
            &&& env.deep_view().request.tools == (match rv.tools {
                Some(ts) => ts,
                None => Seq::empty(),
            })
            &&& safety_off(env.deep_view().request.safety_settings)
            &&& env.deep_view().request.generation_config == gen_config_of(
                rv,
                retried_without_thinking,
            )
        },
{
    if r.messages.len() == 0 {
        return Err(String::from_str("request has no messages"));
    }
    let ghost rv = r.deep_view();
    let n = r.messages.len();
    let mut contents: Vec<GeminiContent> = Vec::new();
    let mut i: usize = 0;
    while i < n
        invariant
            n == r.messages@.len(),
            r.messages.deep_view().len() == n,
            i <= n,
            contents.deep_view().len() == i,
            forall|k: int| 0 <= k < i ==> contents.deep_view()[k] == contents_of_messages(
                r.messages.deep_view(),
                retried_without_thinking,
            )[k],
        decreases n - i,
    {
        let m = crate::context::duplicate_message(&r.messages[i]);
        let ghost mv = m.deep_view();
        let ghost cs0 = contents.deep_view();
        let role = if crate::strutil::str_eq(m.role.as_str(), "assistant") {
            String::from_str("model")
        } else {
            String::from_str("user")
        };
        let parts = parts_of_content_exec(m.content, retried_without_thinking);
        contents.push(GeminiContent { role, parts });
        proof {
            assert(contents.deep_view() =~= cs0.push(
                GeminiContentV {
                    role: gemini_role(mv.role),
                    parts: parts_of_content(mv.content, retried_without_thinking),
                },
            ));
        }
        i += 1;
    }
    proof {
        assert(contents.deep_view() =~= contents_of_messages(
            r.messages.deep_view(),
            retried_without_thinking,
        ));
    }
    let tools: Vec<ToolDef> = match &r.tools {
        Some(ts) => {
            let tn = ts.len();
            let mut out: Vec<ToolDef> = Vec::new();
            let mut j: usize = 0;
            while j < tn
                invariant
                    tn == ts@.len(),
                    ts.deep_view().len() == tn,
                    j <= tn,
                    out.deep_view().len() == j,
                    forall|k: int| 0 <= k < j ==> out.deep_view()[k] == ts.deep_view()[k],
                decreases tn - j,
            {
                let ghost o0 = out.deep_view();
                out.push(
                    ToolDef {
                        name: String::from_str(ts[j].name.as_str()),
                        description: String::from_str(ts[j].description.as_str()),
                        input_schema_json: String::from_str(ts[j].input_schema_json.as_str()),
                    },
                );
                proof {
                    assert(out.deep_view() =~= o0.push(ts.deep_view()[j as int]));
                }
                j += 1;
            }
            proof {
                assert(out.deep_view() =~= ts.deep_view());
            }
            out
        },
        None => Vec::new(),
    };
    let history_ok = history_thinking_ok_exec(&r.messages);
    let model_ok = crate::model_mapping::model_supports_thinking(r.model.as_str());
    let thinking_on = !retried_without_thinking && (match &r.thinking {
        Some(_) => true,
        None => false,
    }) && model_ok && history_ok;
    let generation_config = GenerationConfig {
        candidate_count: None,
        max_output_tokens: r.sampling.max_tokens,
        temperature_milli: r.sampling.temperature_milli,
        top_p_milli: r.sampling.top_p_milli,
        top_k: r.sampling.top_k,
        stop_sequences: Vec::new(),
        thinking_budget: if thinking_on {
            match &r.thinking {
                Some(t) => Some(t.budget_tokens),
                None => None,
            }
        } else {
            None
        },
        include_thoughts: thinking_on,
        image_config: None,
    };
    let body = GeminiRequestBody {
        system_instruction: crate::context::duplicate_request(r).system,
        contents,
        tools,
        generation_config,
        safety_settings: build_safety_settings(),
    };
    proof {
        assert(body.deep_view().generation_config.stop_sequences =~= Seq::<Seq<char>>::empty());
    }
    Ok(
        GeminiEnvelope {
            project: String::from_str(project_id),
            request_id: crate::outside::agent_request_id(),
            model: String::from_str(r.model.as_str()),
            user_agent: String::from_str("antigravity"),
            request_type: String::from_str("agent"),
            request: body,
        },
    )
}

// ---------------------------------------------------------------------------
// Response translation
// ---------------------------------------------------------------------------

/// The Anthropic block a Gemini part maps back to.
pub open spec fn anthropic_block_of_part(p: GeminiPartV) -> ContentBlockV {
    let kind = match p {
        GeminiPartV::Text { text } => BlockKindV::Text { text },
        GeminiPartV::Thought { text, signature } => BlockKindV::Thinking {
            thinking: text,
            signature,
        },
        GeminiPartV::FunctionCall { id, name, args_json } => BlockKindV::ToolUse {
            id,
            name,
            input_json: args_json,
        },
        GeminiPartV::FunctionResponse { id, name, response_json } => BlockKindV::ToolResult {
            tool_use_id: id,
            content: response_json,
        },
        GeminiPartV::InlineData { mime_type, data } => BlockKindV::Image { media_type: mime_type, data },
    };
    ContentBlockV { kind, cache_control: None }
}

/// The block list of a candidate's parts, in part order.
pub open spec fn blocks_of_parts(ps: Seq<GeminiPartV>) -> Seq<ContentBlockV> {
    ps.map_values(|p: GeminiPartV| anthropic_block_of_part(p))
}

/// A reported token count, capped at the context limit when usage scaling is
/// on (the client-visible back-pressure signal).
pub open spec fn scaled_count(x: u64, scaling: bool, limit: u64) -> u64 {
    if scaling && x > limit {
        limit
    } else {
        x
    }
}

/// Anthropic's stop reason for a Gemini finish reason.
pub open spec fn stop_reason_of(fr: Option<Seq<char>>) -> Seq<char> {
    match fr {
        Some(f) => if f == "MAX_TOKENS"@ {
            "max_tokens"@
        } else {
            "end_turn"@
        },
        None => "end_turn"@,
    }
}

fn anthropic_block_of_part_exec(p: GeminiPart) -> (r: ContentBlock)
    ensures
        r.deep_view() == anthropic_block_of_part(p.deep_view()),
{
    let kind = match p {
        GeminiPart::Text { text } => BlockKind::Text { text },
        GeminiPart::Thought { text, signature } => BlockKind::Thinking {
            thinking: text,
            signature,
        },
        GeminiPart::FunctionCall { id, name, args_json } => BlockKind::ToolUse {
            id,
            name,
            input_json: args_json,
        },
        GeminiPart::FunctionResponse { id, name, response_json } => BlockKind::ToolResult {
            tool_use_id: id,
            content: response_json,
        },
        GeminiPart::InlineData { mime_type, data } => BlockKind::Image {
            media_type: mime_type,
            data,
        },
    };
    ContentBlock { kind, cache_control: None }
}

/// Maps the first candidate of an upstream response to a Anthropic response,
/// scaling reported token counts against the context limit when usage
/// scaling is on. Fails exactly when no candidate came back.
pub fn transform_response(
    g: GeminiResponse,
    scaling_enabled: bool,
    context_limit: u64,
    model: &str,
) -> (out: Result<AnthropicResponse, String>)
    ensures
        out is Ok <==> g.candidates@.len() > 0,
        out matches Ok(resp) ==> {
            let gv = g.deep_view();
            &&& resp.deep_view().model == model@
            &&& resp.deep_view().role == "assistant"@
            &&& resp.deep_view().content == blocks_of_parts(gv.candidates[0].content.parts)
            &&& resp.deep_view().stop_reason == Some(
                stop_reason_of(gv.candidates[0].finish_reason),
            )
            &&& resp.deep_view().usage == (match gv.usage {
                Some(u) => AnthropicUsage {
                    input_tokens: scaled_count(u.prompt_tokens, scaling_enabled, context_limit),
                    output_tokens: scaled_count(
                        u.candidates_tokens,
                        scaling_enabled,
                        context_limit,
                    ),
                    cache_read_input_tokens: u.cached_tokens,
                },
                None => AnthropicUsage {
                    input_tokens: 0,
                    output_tokens: 0,
                    cache_read_input_tokens: None,
                },
            })
        },
{
    let ghost gv = g.deep_view();
    if g.candidates.len() == 0 {
        return Err(String::from_str("upstream response has no candidates"));
    }
    let mut cands = g.candidates;
    let cand = cands.remove(0);
    proof {
        assert(cand.deep_view() == gv.candidates[0]);
    }
    let mut parts = cand.content.parts;
    let ghost ps0 = parts.deep_view();
    let mut content: Vec<ContentBlock> = Vec::new();
    while parts.len() > 0
        invariant
            content.deep_view().len() + parts.deep_view().len() == ps0.len(),
            forall|k: int| 0 <= k < content.deep_view().len() ==> content.deep_view()[k]
                == anthropic_block_of_part(ps0[k]),
            forall|k: int| 0 <= k < parts.deep_view().len() ==> parts.deep_view()[k] == ps0[
                content.deep_view().len() + k
            ],
        decreases parts.len(),
    {
        let ghost c0 = content.deep_view();
        let ghost rest0 = parts.deep_view();
        let p = parts.remove(0);
        proof {
            assert(parts.deep_view() =~= rest0.skip(1));
            assert(p.deep_view() == rest0[0]);
        }
        content.push(anthropic_block_of_part_exec(p));
        proof {
            assert(content.deep_view() =~= c0.push(anthropic_block_of_part(ps0[c0.len() as int])));
        }
    }
    proof {
        assert(content.deep_view() =~= blocks_of_parts(ps0));
    }
    let stop_reason = match &cand.finish_reason {
        Some(f) => {
            if crate::strutil::str_eq(f.as_str(), "MAX_TOKENS") {
                String::from_str("max_tokens")
            } else {
                String::from_str("end_turn")
            }
        },
        None => String::from_str("end_turn"),
    };
    let usage = match &g.usage {
        Some(u) => {
            let input_tokens = if scaling_enabled && u.prompt_tokens > context_limit {
                context_limit
            } else {
                u.prompt_tokens
            };
            let output_tokens = if scaling_enabled && u.candidates_tokens > context_limit {
                context_limit
            } else {
                u.candidates_tokens
            };
            AnthropicUsage { input_tokens, output_tokens, cache_read_input_tokens: u.cached_tokens }
        },
        None => AnthropicUsage { input_tokens: 0, output_tokens: 0, cache_read_input_tokens: None },
    };
    Ok(
        AnthropicResponse {
            model: String::from_str(model),
            role: String::from_str("assistant"),
            content,
            stop_reason: Some(stop_reason),
            usage,
        },
    )
}

// ---------------------------------------------------------------------------
// Stream collection
// ---------------------------------------------------------------------------

/// The parts a stream chunk contributes: its first candidate's parts.
pub open spec fn chunk_parts(c: GeminiResponseV) -> Seq<GeminiPartV> {
    if c.candidates.len() > 0 {
        c.candidates[0].content.parts
    } else {
        Seq::empty()
    }
}

/// All parts of a chunk sequence, in stream order.
pub open spec fn merged_parts(chunks: Seq<GeminiResponseV>) -> Seq<GeminiPartV>
    decreases chunks.len(),
{
    if chunks.len() == 0 {
        Seq::empty()
    } else {
        merged_parts(chunks.drop_last()) + chunk_parts(chunks.last())
    }
}

/// The last usage any chunk reported.
pub open spec fn last_usage(chunks: Seq<GeminiResponseV>) -> Option<GeminiUsage>
    decreases chunks.len(),
{
    if chunks.len() == 0 {
        None
    } else {
        match chunks.last().usage {
            Some(u) => Some(u),
            None => last_usage(chunks.drop_last()),
        }
    }
}

/// The last finish reason any chunk's first candidate reported.
pub open spec fn last_finish(chunks: Seq<GeminiResponseV>) -> Option<Seq<char>>
    decreases chunks.len(),
{
    if chunks.len() == 0 {
        None
    } else {
        let tail_fr = if chunks.last().candidates.len() > 0 {
            chunks.last().candidates[0].finish_reason
        } else {
            None
        };
        match tail_fr {
            Some(f) => Some(f),
            None => last_finish(chunks.drop_last()),
        }
    }
}

/// Folds the parsed chunks of a forced-streaming call into the single
/// response the non-streaming client is owed: one `model` candidate holding
/// every part in stream order, the last reported finish reason and usage.
/// The result feeds `transform_response` unchanged.
pub fn collect_stream_chunks(chunks: Vec<GeminiResponse>) -> (g: GeminiResponse)
    ensures
        g.deep_view().candidates.len() == 1,
        g.deep_view().candidates[0].content.role == "model"@,
        g.deep_view().candidates[0].content.parts == merged_parts(chunks.deep_view()),
        g.deep_view().candidates[0].finish_reason == last_finish(chunks.deep_view()),
        g.deep_view().usage == last_usage(chunks.deep_view()),
{
    let ghost orig = chunks.deep_view();
    let mut rest = chunks;
    let mut parts: Vec<GeminiPart> = Vec::new();
    let mut usage: Option<crate::models::GeminiUsage> = None;
    let mut finish: Option<String> = None;
    let ghost consumed: int = 0;
    proof {
        assert(orig.take(0) =~= Seq::<GeminiResponseV>::empty());
    }
    while rest.len() > 0
        invariant
            0 <= consumed <= orig.len(),
            rest.deep_view().len() == orig.len() - consumed,
            forall|k: int| 0 <= k < rest.deep_view().len() ==> rest.deep_view()[k] == orig[
                consumed + k
            ],
            parts.deep_view() == merged_parts(orig.take(consumed)),
            usage.deep_view() == last_usage(orig.take(consumed)),
            finish.deep_view() == last_finish(orig.take(consumed)),
        decreases rest.len(),
    {
        let ghost p0 = parts.deep_view();
        let ghost rest0 = rest.deep_view();
        let c = rest.remove(0);
        proof {
            assert(rest.deep_view() =~= rest0.skip(1));
            assert(c.deep_view() == rest0[0]);
            assert(c.deep_view() == orig[consumed]);
            assert(orig.take(consumed + 1).drop_last() =~= orig.take(consumed));
            assert(orig.take(consumed + 1).last() == orig[consumed]);
        }
        let mut cands = c.candidates;
        if cands.len() > 0 {
            let mut c0 = cands.remove(0);
            proof {
                assert(c0.deep_view() == orig[consumed].candidates[0]);
            }
            let ghost addv = c0.content.parts.deep_view();
            parts.append(&mut c0.content.parts);
            proof {
                assert(parts.deep_view() =~= p0 + addv);
            }
            match c0.finish_reason {
                Some(f) => {
                    finish = Some(f);
                },
                None => {},
            }
        } else {
            proof {
                assert(parts.deep_view() =~= p0 + chunk_parts(orig[consumed]));
            }
        }
        match c.usage {
            Some(u) => {
                usage = Some(u);
            },
            None => {},
        }
        proof {
            consumed = consumed + 1;
        }
    }
    proof {
        assert(orig.take(consumed) =~= orig);
    }
    let mut candidates: Vec<crate::models::GeminiCandidate> = Vec::new();
    candidates.push(
        crate::models::GeminiCandidate {
            content: GeminiContent { role: String::from_str("model"), parts },
            finish_reason: finish,
        },
    );
    GeminiResponse { candidates, usage }
}

/// The plain text of a response: every text part of every candidate,
/// concatenated in order.
pub open spec fn parts_text(ps: Seq<GeminiPartV>) -> Seq<char>
    decreases ps.len(),
{
    if ps.len() == 0 {
        Seq::empty()
    } else {
        parts_text(ps.drop_last()) + (match ps.last() {
            GeminiPartV::Text { text } => text,
            _ => Seq::empty(),
        })
    }
}

pub open spec fn response_text(g: GeminiResponseV) -> Seq<char>
    decreases g.candidates.len(),
{
    candidates_text(g.candidates)
}

pub open spec fn candidates_text(cs: Seq<GeminiCandidateV>) -> Seq<char>
    decreases cs.len(),
{
    if cs.len() == 0 {
        Seq::empty()
    } else {
        candidates_text(cs.drop_last()) + parts_text(cs.last().content.parts)
    }
}

/// Extracts the plain text of a response, as the fork-and-summarize caller
/// reads the summary back.
pub fn response_plain_text(g: &GeminiResponse) -> (r: String)
    ensures
        r@ == response_text(g.deep_view()),
{
    let mut out = String::new();
    let cn = g.candidates.len();
    let mut i: usize = 0;
    proof {
        assert(g.deep_view().candidates.take(0) =~= Seq::<GeminiCandidateV>::empty());
        assert(out@ =~= candidates_text(g.deep_view().candidates.take(0)));
    }
    while i < cn
        invariant
            cn == g.candidates@.len(),
            g.deep_view().candidates.len() == cn,
            i <= cn,
            out@ == candidates_text(g.deep_view().candidates.take(i as int)),
        decreases cn - i,
    {
        let ghost cv = g.deep_view().candidates[i as int];
        let parts = &g.candidates[i].content.parts;
        proof {
            assert(parts.deep_view() == cv.content.parts);
        }
        let pn = parts.len();
        let mut j: usize = 0;
        proof {
            assert(cv.content.parts.take(0) =~= Seq::<GeminiPartV>::empty());
            assert(out@ =~= candidates_text(g.deep_view().candidates.take(i as int)) + parts_text(
                cv.content.parts.take(0),
            ));
        }
        while j < pn
            invariant
                pn == parts@.len(),
                parts.deep_view() == cv.content.parts,
                cv.content.parts.len() == pn,
                j <= pn,
                out@ == candidates_text(g.deep_view().candidates.take(i as int)) + parts_text(
                    cv.content.parts.take(j as int),
                ),
            decreases pn - j,
        {
            proof {
                assert(cv.content.parts.take(j + 1).drop_last() =~= cv.content.parts.take(
                    j as int,
                ));
                assert(cv.content.parts.take(j + 1).last() == cv.content.parts[j as int]);
            }
            match &parts[j] {
                GeminiPart::Text { text } => {
                    out.append(text.as_str());
                },
                _ => {},
            }
            j += 1;
        }
        proof {
            assert(cv.content.parts.take(pn as int) =~= cv.content.parts);
            assert(g.deep_view().candidates.take(i + 1).drop_last() =~= g.deep_view(
            ).candidates.take(i as int));
            assert(g.deep_view().candidates.take(i + 1).last() == cv);
        }
        i += 1;
    }
    proof {
        assert(g.deep_view().candidates.take(cn as int) =~= g.deep_view().candidates);
    }
    out
}

// ---------------------------------------------------------------------------
// The round trip
// ---------------------------------------------------------------------------

/// A block the round trip is exact for: everything but redacted thinking
/// (which the upstream has no representation of), without a cache hint.
pub open spec fn assistant_block(b: ContentBlockV) -> bool {
    !(b.kind is RedactedThinking) && b.cache_control is None
}

/// A thinking block.
pub open spec fn is_thinking_block(b: ContentBlockV) -> bool {
    b.kind is Thinking
}

/// Thinking blocks first, then the rest, each side in original order.
pub open spec fn sort_blocks_thinking_first(bs: Seq<ContentBlockV>) -> Seq<ContentBlockV> {
    bs.filter(|b: ContentBlockV| is_thinking_block(b)) + bs.filter(
        |b: ContentBlockV| !is_thinking_block(b),
    )
}

/// The part an assistant block becomes (total when thinking is not
/// stripped).
pub open spec fn part1(b: ContentBlockV) -> GeminiPartV {
    part_of_block(b, false)->Some_0
}

proof fn lemma_parts_map(bs: Seq<ContentBlockV>)
    ensures
        parts_of_blocks(bs, false) == bs.map_values(|b: ContentBlockV| part1(b)),
    decreases bs.len(),
{
    if bs.len() == 0 {
        assert(parts_of_blocks(bs, false) =~= bs.map_values(|b: ContentBlockV| part1(b)));
    } else {
        lemma_parts_map(bs.drop_last());
        assert(part_of_block(bs.last(), false) is Some);
        assert(bs.map_values(|b: ContentBlockV| part1(b)) =~= bs.drop_last().map_values(
            |b: ContentBlockV| part1(b),
        ).push(part1(bs.last())));
    }
}

proof fn lemma_filter_map_commute(bs: Seq<ContentBlockV>)
    requires
        forall|i: int| 0 <= i < bs.len() ==> assistant_block(#[trigger] bs[i]),
    ensures
        bs.map_values(|b: ContentBlockV| part1(b)).filter(|p: GeminiPartV| is_thought_part(p))
            == bs.filter(|b: ContentBlockV| is_thinking_block(b)).map_values(
            |b: ContentBlockV| part1(b),
        ),
        bs.map_values(|b: ContentBlockV| part1(b)).filter(|p: GeminiPartV| !is_thought_part(p))
            == bs.filter(|b: ContentBlockV| !is_thinking_block(b)).map_values(
            |b: ContentBlockV| part1(b),
        ),
    decreases bs.len(),
{
    reveal(Seq::filter);
    let fm = |b: ContentBlockV| part1(b);
    let pt = |p: GeminiPartV| is_thought_part(p);
    let npt = |p: GeminiPartV| !is_thought_part(p);
    let tb = |b: ContentBlockV| is_thinking_block(b);
    let ntb = |b: ContentBlockV| !is_thinking_block(b);
    if bs.len() == 0 {
        assert(bs.map_values(fm) =~= Seq::<GeminiPartV>::empty());
        assert(bs.map_values(fm).filter(pt) =~= bs.filter(tb).map_values(fm));
        assert(bs.map_values(fm).filter(npt) =~= bs.filter(ntb).map_values(fm));
    } else {
        let pre = bs.drop_last();
        assert(forall|i: int| 0 <= i < pre.len() ==> assistant_block(#[trigger] pre[i]));
        lemma_filter_map_commute(pre);
        let last = bs.last();
        assert(assistant_block(last));
        assert(is_thought_part(part1(last)) == is_thinking_block(last));
        assert(bs.map_values(fm) =~= pre.map_values(fm).push(part1(last)));
        assert(bs.map_values(fm).drop_last() =~= pre.map_values(fm));
        assert(bs.map_values(fm).last() == part1(last));
        if is_thinking_block(last) {
            assert(bs.filter(tb) =~= pre.filter(tb).push(last));
            assert(bs.filter(ntb) =~= pre.filter(ntb));
            assert(bs.filter(tb).map_values(fm) =~= pre.filter(tb).map_values(fm).push(
                part1(last),
            ));
            assert(bs.map_values(fm).filter(pt) =~= pre.map_values(fm).filter(pt).push(
                part1(last),
            ));
            assert(bs.map_values(fm).filter(npt) =~= pre.map_values(fm).filter(npt));
            assert(bs.map_values(fm).filter(pt) =~= bs.filter(tb).map_values(fm));
            assert(bs.map_values(fm).filter(npt) =~= bs.filter(ntb).map_values(fm));
        } else {
            assert(bs.filter(ntb) =~= pre.filter(ntb).push(last));
            assert(bs.filter(tb) =~= pre.filter(tb));
            assert(bs.filter(ntb).map_values(fm) =~= pre.filter(ntb).map_values(fm).push(
                part1(last),
            ));
            assert(bs.map_values(fm).filter(npt) =~= pre.map_values(fm).filter(npt).push(
                part1(last),
            ));
            assert(bs.map_values(fm).filter(pt) =~= pre.map_values(fm).filter(pt));
            assert(bs.map_values(fm).filter(pt) =~= bs.filter(tb).map_values(fm));
            assert(bs.map_values(fm).filter(npt) =~= bs.filter(ntb).map_values(fm));
        }
    }
}

/// Every block of the list is an assistant block.
pub open spec fn all_assistant(bs: Seq<ContentBlockV>) -> bool {
    forall|i: int| 0 <= i < bs.len() ==> assistant_block(#[trigger] bs[i])
}

proof fn lemma_filter_keeps_assistant(bs: Seq<ContentBlockV>)
    requires
        all_assistant(bs),
    ensures
        all_assistant(bs.filter(|b: ContentBlockV| is_thinking_block(b))),
        all_assistant(bs.filter(|b: ContentBlockV| !is_thinking_block(b))),
    decreases bs.len(),
{
    reveal(Seq::filter);
    if bs.len() > 0 {
        let pre = bs.drop_last();
        assert(all_assistant(pre)) by {
            assert(forall|i: int| 0 <= i < pre.len() ==> pre[i] == bs[i]);
        }
        lemma_filter_keeps_assistant(pre);
    }
}

proof fn lemma_blocks_of_map_inverse(bs: Seq<ContentBlockV>)
    requires
        forall|i: int| 0 <= i < bs.len() ==> assistant_block(#[trigger] bs[i]),
    ensures
        blocks_of_parts(bs.map_values(|b: ContentBlockV| part1(b))) == bs,
{
    assert forall|i: int| 0 <= i < bs.len() implies anthropic_block_of_part(part1(bs[i]))
        == bs[i] by {
        assert(assistant_block(bs[i]));
    }
    assert(blocks_of_parts(bs.map_values(|b: ContentBlockV| part1(b))) =~= bs);
}

/// The round trip through the translator preserves block order up to the
/// stable thinking-first sort: translating a turn's blocks to parts and a
/// (mocked) upstream echo of those parts back to blocks yields exactly the
/// thinking-first permutation of the original blocks. The one excluded kind
/// is redacted thinking, which the upstream cannot echo.
pub proof fn lemma_translation_round_trip(bs: Seq<ContentBlockV>)
    requires
        forall|i: int| 0 <= i < bs.len() ==> assistant_block(#[trigger] bs[i]),
    ensures
        blocks_of_parts(sort_thinking_first(parts_of_blocks(bs, false)))
            == sort_blocks_thinking_first(bs),
{
    let fm = |b: ContentBlockV| part1(b);
    lemma_parts_map(bs);
    lemma_filter_map_commute(bs);
    let tf = bs.filter(|b: ContentBlockV| is_thinking_block(b));
    let ntf = bs.filter(|b: ContentBlockV| !is_thinking_block(b));
    assert(sort_thinking_first(parts_of_blocks(bs, false)) == tf.map_values(fm) + ntf.map_values(
        fm,
    ));
    lemma_filter_keeps_assistant(bs);
    lemma_blocks_of_map_inverse(tf);
    lemma_blocks_of_map_inverse(ntf);
    assert(blocks_of_parts(tf.map_values(fm) + ntf.map_values(fm)) =~= blocks_of_parts(
        tf.map_values(fm),
    ) + blocks_of_parts(ntf.map_values(fm)));
}

/// Role order survives the translation: the contents list carries one entry
/// per message, in order, with the mapped role.
pub proof fn lemma_translation_preserves_roles(ms: Seq<MessageV>, strip: bool)
    ensures
        contents_of_messages(ms, strip).len() == ms.len(),
        forall|i: int| 0 <= i < ms.len() ==> (#[trigger] contents_of_messages(ms, strip)[i]).role
            == gemini_role(ms[i].role),
{
}

} // verus!

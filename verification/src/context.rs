//! The context manager: a deterministic structural token estimator and the
//! three-layer progressive compression (tool trimming, thinking compression,
//! fork-and-summarize builders).
use vstd::prelude::*;

use crate::calibrator::Calibrator;
use crate::models::{BlockKind, BlockKindV, ContentBlock, ContentBlockV, AnthropicRequest,
    AnthropicRequestV, Message, MessageContent, MessageContentV, MessageV, ToolDefV};

verus! {

// ---------------------------------------------------------------------------
// Token estimation
// ---------------------------------------------------------------------------

/// Estimated tokens of one block: a quarter of its character count plus a
/// fixed per-block overhead.
pub open spec fn block_tokens(b: ContentBlockV) -> nat {
    match b.kind {
        BlockKindV::Text { text } => text.len() / 4 + 4,
        BlockKindV::Image { media_type, data } => data.len() / 4 + 8,
        BlockKindV::ToolUse { id, name, input_json } => id.len() / 4 + name.len() / 4
            + input_json.len() / 4 + 8,
        BlockKindV::ToolResult { tool_use_id, content } => tool_use_id.len() / 4 + content.len()
            / 4 + 8,
        BlockKindV::Thinking { thinking, signature } => thinking.len() / 4 + signature.len() / 4
            + 8,
        BlockKindV::RedactedThinking { data } => data.len() / 4 + 8,
    }
}

pub open spec fn blocks_tokens(bs: Seq<ContentBlockV>) -> nat
    decreases bs.len(),
{
    if bs.len() == 0 {
        0
    } else {
        blocks_tokens(bs.drop_last()) + block_tokens(bs.last())
    }
}

/// Estimated tokens of one message: its content plus a fixed per-message
/// overhead.
pub open spec fn message_tokens(m: MessageV) -> nat {
    8 + match m.content {
        MessageContentV::Text(s) => s.len() / 4 + 4,
        MessageContentV::Blocks(bs) => blocks_tokens(bs),
    }
}

pub open spec fn messages_tokens(ms: Seq<MessageV>) -> nat
    decreases ms.len(),
{
    if ms.len() == 0 {
        0
    } else {
        messages_tokens(ms.drop_last()) + message_tokens(ms.last())
    }
}

pub open spec fn tool_tokens(t: ToolDefV) -> nat {
    t.name.len() / 4 + t.description.len() / 4 + t.input_schema_json.len() / 4 + 8
}

pub open spec fn tools_tokens(ts: Seq<ToolDefV>) -> nat
    decreases ts.len(),
{
    if ts.len() == 0 {
        0
    } else {
        tools_tokens(ts.drop_last()) + tool_tokens(ts.last())
    }
}

/// The structural token estimate of a whole request.
pub open spec fn request_tokens(r: AnthropicRequestV) -> nat {
    (match r.system {
        Some(s) => s.len() / 4,
        None => 0,
    }) + messages_tokens(r.messages) + (match r.tools {
        Some(ts) => tools_tokens(ts),
        None => 0,
    })
}

/// Saturating addition at the `u64` bound.
fn sat_add(a: u64, b: u64) -> (r: u64)
    ensures
        r == if a + b <= u64::MAX {
            (a + b) as u64
        } else {
            u64::MAX
        },
{
    if a <= u64::MAX - b {
        a + b
    } else {
        u64::MAX
    }
}

/// A quarter of the character count of `s`, plus `overhead`.
fn quarter_len(s: &str, overhead: u64) -> (r: u64)
    requires
        overhead <= 16,
    ensures
        r == s@.len() / 4 + overhead,
{
    let l = s.unicode_len();
    (l / 4) as u64 + overhead
}

fn block_tokens_exec(b: &ContentBlock) -> (r: u64)
    ensures
        r == if block_tokens(b.deep_view()) <= u64::MAX {
            block_tokens(b.deep_view()) as u64
        } else {
            u64::MAX
        },
{
    match &b.kind {
        BlockKind::Text { text } => quarter_len(text.as_str(), 4),
        BlockKind::Image { media_type, data } => quarter_len(data.as_str(), 8),
        BlockKind::ToolUse { id, name, input_json } => {
            let t = sat_add(quarter_len(id.as_str(), 0), quarter_len(name.as_str(), 0));
            sat_add(t, quarter_len(input_json.as_str(), 8))
        },
        BlockKind::ToolResult { tool_use_id, content } => sat_add(
            quarter_len(tool_use_id.as_str(), 0),
            quarter_len(content.as_str(), 8),
        ),
        BlockKind::Thinking { thinking, signature } => sat_add(
            quarter_len(thinking.as_str(), 0),
            quarter_len(signature.as_str(), 8),
        ),
        BlockKind::RedactedThinking { data } => quarter_len(data.as_str(), 8),
    }
}

fn message_tokens_exec(m: &Message) -> (r: u64)
    ensures
        r == if message_tokens(m.deep_view()) <= u64::MAX {
            message_tokens(m.deep_view()) as u64
        } else {
            u64::MAX
        },
{
    let ghost mv = m.deep_view();
    match &m.content {
        MessageContent::Text(s) => sat_add(8, quarter_len(s.as_str(), 4)),
        MessageContent::Blocks(bs) => {
            let n = bs.len();
            let mut acc: u64 = 0;
            let mut i: usize = 0;
            proof {
                assert(bs.deep_view().take(0) =~= Seq::<ContentBlockV>::empty());
            }
            while i < n
                invariant
                    n == bs@.len(),
                    bs.deep_view().len() == n,
                    i <= n,
                    acc == if blocks_tokens(bs.deep_view().take(i as int)) <= u64::MAX {
                        blocks_tokens(bs.deep_view().take(i as int)) as u64
                    } else {
                        u64::MAX
                    },
                decreases n - i,
            {
                let t = block_tokens_exec(&bs[i]);
                proof {
                    assert(bs.deep_view().take(i + 1).drop_last() =~= bs.deep_view().take(i as int));
                    assert(bs.deep_view().take(i + 1).last() == bs.deep_view()[i as int]);
                }
                acc = sat_add(acc, t);
                i += 1;
            }
            proof {
                assert(bs.deep_view().take(n as int) =~= bs.deep_view());
            }
            sat_add(8, acc)
        },
    }
}

/// The deterministic structural token estimate of a request: a fixed overhead
/// per message and block plus a quarter of each text's character count,
/// saturating at the integer bound.
pub fn estimate_token_usage(r: &AnthropicRequest) -> (est: u64)
    ensures
        est == if request_tokens(r.deep_view()) <= u64::MAX {
            request_tokens(r.deep_view()) as u64
        } else {
            u64::MAX
        },
{
    let mut acc: u64 = match &r.system {
        Some(s) => quarter_len(s.as_str(), 0),
        None => 0,
    };
    let n = r.messages.len();
    let mut i: usize = 0;
    let mut msum: u64 = 0;
    proof {
        assert(r.messages.deep_view().take(0) =~= Seq::<MessageV>::empty());
    }
    while i < n
        invariant
            n == r.messages@.len(),
            r.messages.deep_view().len() == n,
            i <= n,
            msum == if messages_tokens(r.messages.deep_view().take(i as int)) <= u64::MAX {
                messages_tokens(r.messages.deep_view().take(i as int)) as u64
            } else {
                u64::MAX
            },
        decreases n - i,
    {
        let t = message_tokens_exec(&r.messages[i]);
        proof {
            assert(r.messages.deep_view().take(i + 1).drop_last() =~= r.messages.deep_view().take(
                i as int,
            ));
            assert(r.messages.deep_view().take(i + 1).last() == r.messages.deep_view()[i as int]);
        }
        msum = sat_add(msum, t);
        i += 1;
    }
    proof {
        assert(r.messages.deep_view().take(n as int) =~= r.messages.deep_view());
    }
    acc = sat_add(acc, msum);
    let tsum: u64 = match &r.tools {
        Some(ts) => {
            let tn = ts.len();
            let mut j: usize = 0;
            let mut tacc: u64 = 0;
            proof {
                assert(ts.deep_view().take(0) =~= Seq::<ToolDefV>::empty());
            }
            while j < tn
                invariant
                    tn == ts@.len(),
                    ts.deep_view().len() == tn,
                    j <= tn,
                    tacc == if tools_tokens(ts.deep_view().take(j as int)) <= u64::MAX {
                        tools_tokens(ts.deep_view().take(j as int)) as u64
                    } else {
                        u64::MAX
                    },
                decreases tn - j,
            {
                let a = sat_add(
                    quarter_len(ts[j].name.as_str(), 0),
                    quarter_len(ts[j].description.as_str(), 0),
                );
                let t = sat_add(a, quarter_len(ts[j].input_schema_json.as_str(), 8));
                proof {
                    assert(ts.deep_view().take(j + 1).drop_last() =~= ts.deep_view().take(j as int));
                    assert(ts.deep_view().take(j + 1).last() == ts.deep_view()[j as int]);
                }
                tacc = sat_add(tacc, t);
                j += 1;
            }
            proof {
                assert(ts.deep_view().take(tn as int) =~= ts.deep_view());
            }
            tacc
        },
        None => 0,
    };
    sat_add(acc, tsum)
}

// ---------------------------------------------------------------------------
// Layer 1: tool-message trimming
// ---------------------------------------------------------------------------

/// Placeholder that an elided tool block collapses to.
pub const TOOL_ELIDED_TEXT: &'static str = "[earlier tool call elided]";

/// A message that takes part in a tool exchange: its block list holds a tool
/// call or a tool result.
pub open spec fn is_tool_message(m: MessageV) -> bool {
    m.content matches MessageContentV::Blocks(bs) && exists|j: int|
        0 <= j < bs.len() && ((#[trigger] bs[j]).kind is ToolUse || bs[j].kind is ToolResult)
}

/// A block with any tool call or result collapsed to the placeholder text.
pub open spec fn elide_block(b: ContentBlockV) -> ContentBlockV {
    match b.kind {
        BlockKindV::ToolUse { id, name, input_json } => ContentBlockV {
            kind: BlockKindV::Text { text: TOOL_ELIDED_TEXT@ },
            cache_control: b.cache_control,
        },
        BlockKindV::ToolResult { tool_use_id, content } => ContentBlockV {
            kind: BlockKindV::Text { text: TOOL_ELIDED_TEXT@ },
            cache_control: b.cache_control,
        },
        _ => b,
    }
}

/// A message with all its tool blocks elided.
pub open spec fn elide_message(m: MessageV) -> MessageV {
    match m.content {
        MessageContentV::Text(s) => m,
        MessageContentV::Blocks(bs) => MessageV {
            role: m.role,
            content: MessageContentV::Blocks(bs.map_values(|b: ContentBlockV| elide_block(b))),
            cache_control: m.cache_control,
        },
    }
}

/// How many messages of the history take part in a tool exchange.
pub open spec fn count_tool_messages(ms: Seq<MessageV>) -> nat
    decreases ms.len(),
{
    if ms.len() == 0 {
        0
    } else {
        count_tool_messages(ms.drop_last()) + if is_tool_message(ms.last()) {
            1nat
        } else {
            0nat
        }
    }
}

/// The history with all but the most recent `keep` tool messages elided,
/// computed from the end.
pub open spec fn trim_spec(ms: Seq<MessageV>, keep: nat) -> Seq<MessageV>
    decreases ms.len(),
{
    if ms.len() == 0 {
        ms
    } else {
        let last = ms.last();
        let rest = ms.drop_last();
        if is_tool_message(last) {
            if keep > 0 {
                trim_spec(rest, (keep - 1) as nat).push(last)
            } else {
                trim_spec(rest, 0).push(elide_message(last))
            }
        } else {
            trim_spec(rest, keep).push(last)
        }
    }
}

fn is_tool_message_exec(m: &Message) -> (r: bool)
    ensures
        r == is_tool_message(m.deep_view()),
{
    match &m.content {
        MessageContent::Text(_) => false,
        MessageContent::Blocks(bs) => {
            let n = bs.len();
            let mut i: usize = 0;
            let mut found = false;
            while i < n
                invariant
                    n == bs.deep_view().len(),
                    i <= n,
                    found == exists|j: int|
                        0 <= j < i && ((#[trigger] bs.deep_view()[j]).kind is ToolUse
                            || bs.deep_view()[j].kind is ToolResult),
                decreases n - i,
            {
                let hit = match &bs[i].kind {
                    BlockKind::ToolUse { id, name, input_json } => true,
                    BlockKind::ToolResult { tool_use_id, content } => true,
                    _ => false,
                };
                proof {
                    assert(hit == ((#[trigger] bs.deep_view()[i as int]).kind is ToolUse
                        || bs.deep_view()[i as int].kind is ToolResult));
                }
                if hit {
                    found = true;
                }
                i += 1;
            }
            found
        },
    }
}

fn elide_message_exec(m: Message) -> (r: Message)
    ensures
        r.deep_view() == elide_message(m.deep_view()),
{
    match m.content {
        MessageContent::Text(s) => Message {
            role: m.role,
            content: MessageContent::Text(s),
            cache_control: m.cache_control,
        },
        MessageContent::Blocks(bs) => {
            let ghost orig = bs.deep_view();
            let mut rest = bs;
            let mut out: Vec<ContentBlock> = Vec::new();
            while rest.len() > 0
                invariant
                    out.deep_view().len() + rest.deep_view().len() == orig.len(),
                    forall|k: int| 0 <= k < out.deep_view().len() ==> out.deep_view()[k]
                        == elide_block(orig[k]),
                    forall|k: int| 0 <= k < rest.deep_view().len() ==> rest.deep_view()[k] == orig[
                        out.deep_view().len() + k
                    ],
                decreases rest.len(),
            {
                let ghost rest0 = rest.deep_view();
                let ghost out0 = out.deep_view();
                let b = rest.remove(0);
                proof {
                    assert(rest.deep_view() =~= rest0.skip(1));
                    assert(b.deep_view() == rest0[0]);
                }
                let nb = match b.kind {
                    BlockKind::ToolUse { id, name, input_json } => ContentBlock {
                        kind: BlockKind::Text { text: String::from_str(TOOL_ELIDED_TEXT) },
                        cache_control: b.cache_control,
                    },
                    BlockKind::ToolResult { tool_use_id, content } => ContentBlock {
                        kind: BlockKind::Text { text: String::from_str(TOOL_ELIDED_TEXT) },
                        cache_control: b.cache_control,
                    },
                    other => ContentBlock { kind: other, cache_control: b.cache_control },
                };
                out.push(nb);
                proof {
                    assert(out.deep_view() =~= out0.push(elide_block(orig[out0.len() as int])));
                }
            }
            proof {
                assert(out.deep_view() =~= orig.map_values(|b: ContentBlockV| elide_block(b)));
            }
            Message {
                role: m.role,
                content: MessageContent::Blocks(out),
                cache_control: m.cache_control,
            }
        },
    }
}

/// Compacts older tool exchanges into elided placeholders, keeping the most
/// recent `keep_last_n` tool messages intact. Returns whether anything was
/// elided.
pub fn trim_tool_messages(msgs: &mut Vec<Message>, keep_last_n: usize) -> (changed: bool)
    ensures
        final(msgs).deep_view() == trim_spec(old(msgs).deep_view(), keep_last_n as nat),
        changed == (count_tool_messages(old(msgs).deep_view()) > keep_last_n),
{
    let ghost orig = old(msgs).deep_view();
    let mut stack: Vec<Message> = Vec::new();
    let mut keep_left = keep_last_n;
    let ghost mut done: Seq<MessageV> = Seq::empty();
    let ghost mut count_suffix: int = 0;
    let mut changed = false;
    proof {
        assert(trim_spec(orig, keep_last_n as nat) =~= trim_spec(
            msgs.deep_view(),
            keep_left as nat,
        ) + done);
    }
    while msgs.len() > 0
        invariant
            trim_spec(orig, keep_last_n as nat) == trim_spec(msgs.deep_view(), keep_left as nat)
                + done,
            stack.deep_view().len() == done.len(),
            forall|j: int| 0 <= j < done.len() ==> stack.deep_view()[j] == done[done.len() - 1 - j],
            count_suffix == count_tool_messages(orig) - count_tool_messages(msgs.deep_view()),
            keep_left == if count_suffix <= keep_last_n {
                keep_last_n - count_suffix
            } else {
                0int
            },
            changed == (count_suffix > keep_last_n),
        decreases msgs.len(),
    {
        let ghost rest0 = msgs.deep_view();
        let ghost done0 = done;
        let ghost stack0 = stack.deep_view();
        let m = msgs.pop().unwrap();
        proof {
            assert(msgs.deep_view() =~= rest0.drop_last());
            assert(m.deep_view() == rest0.last());
        }
        let tool = is_tool_message_exec(&m);
        if tool {
            if keep_left > 0 {
                keep_left -= 1;
                stack.push(m);
                proof {
                    done = seq![rest0.last()] + done0;
                }
            } else {
                changed = true;
                let em = elide_message_exec(m);
                stack.push(em);
                proof {
                    done = seq![elide_message(rest0.last())] + done0;
                }
            }
            proof {
                count_suffix = count_suffix + 1;
            }
        } else {
            stack.push(m);
            proof {
                done = seq![rest0.last()] + done0;
            }
        }
        proof {
            assert(trim_spec(msgs.deep_view(), keep_left as nat) + done =~= trim_spec(
                orig,
                keep_last_n as nat,
            ));
            assert forall|j: int| 0 <= j < done.len() implies stack.deep_view()[j] == done[
                done.len() - 1 - j
            ] by {
                if j < done0.len() {
                    assert(stack.deep_view()[j] == stack0[j]);
                    assert(done[done.len() - 1 - j] == done0[done0.len() - 1 - j]);
                } else {
                    assert(done[done.len() - 1 - j] == done[0]);
                }
            }
        }
    }
    proof {
        assert(msgs.deep_view() =~= Seq::<MessageV>::empty());
        assert(trim_spec(Seq::<MessageV>::empty(), keep_left as nat) =~= Seq::<MessageV>::empty());
        assert(done =~= trim_spec(orig, keep_last_n as nat));
    }
    while stack.len() > 0
        invariant
            stack.deep_view().len() <= done.len(),
            msgs.deep_view().len() + stack.deep_view().len() == done.len(),
            forall|j: int| 0 <= j < stack.deep_view().len() ==> stack.deep_view()[j] == done[
                done.len() - 1 - j
            ],
            forall|j: int| 0 <= j < msgs.deep_view().len() ==> msgs.deep_view()[j] == done[j],
            done == trim_spec(orig, keep_last_n as nat),
        decreases stack.len(),
    {
        let ghost msgs0 = msgs.deep_view();
        let ghost stack0 = stack.deep_view();
        let m = stack.pop().unwrap();
        proof {
            assert(stack.deep_view() =~= stack0.drop_last());
            assert(m.deep_view() == stack0.last());
            assert(m.deep_view() == done[done.len() - 1 - (stack0.len() - 1)]);
        }
        msgs.push(m);
        proof {
            assert(msgs.deep_view() =~= msgs0.push(done[msgs0.len() as int]));
        }
    }
    proof {
        assert(final(msgs).deep_view() =~= done);
    }
    changed
}

// ---------------------------------------------------------------------------
// Layer 2: thinking compression
// ---------------------------------------------------------------------------

/// Longest thinking text an old block keeps; anything longer is cut to this
/// prefix (its signature stays whole, the upstream validates it).
pub const THINKING_STUB_CHARS: usize = 200;

/// A message that carries a thinking block.
pub open spec fn is_thinking_message(m: MessageV) -> bool {
    m.content matches MessageContentV::Blocks(bs) && exists|j: int|
        0 <= j < bs.len() && (#[trigger] bs[j]).kind is Thinking
}

/// A thinking block cut to the stub length; other blocks pass unchanged.
pub open spec fn stub_block(b: ContentBlockV) -> ContentBlockV {
    match b.kind {
        BlockKindV::Thinking { thinking, signature } => {
            if thinking.len() > THINKING_STUB_CHARS as int {
                ContentBlockV {
                    kind: BlockKindV::Thinking {
                        thinking: thinking.take(THINKING_STUB_CHARS as int),
                        signature,
                    },
                    cache_control: b.cache_control,
                }
            } else {
                b
            }
        },
        _ => b,
    }
}

/// A message with all its thinking blocks cut to stubs.
pub open spec fn stub_message(m: MessageV) -> MessageV {
    match m.content {
        MessageContentV::Text(s) => m,
        MessageContentV::Blocks(bs) => MessageV {
            role: m.role,
            content: MessageContentV::Blocks(bs.map_values(|b: ContentBlockV| stub_block(b))),
            cache_control: m.cache_control,
        },
    }
}

/// The message holds a thinking block longer than the stub length.
pub open spec fn has_long_thinking(m: MessageV) -> bool {
    m.content matches MessageContentV::Blocks(bs) && exists|j: int|
        0 <= j < bs.len() && ((#[trigger] bs[j]).kind matches BlockKindV::Thinking {
            thinking,
            signature,
        } && thinking.len() > THINKING_STUB_CHARS as int)
}

/// The history with thinking in all but the most recent `keep` thinking
/// messages cut to stubs, computed from the end.
pub open spec fn compress_spec(ms: Seq<MessageV>, keep: nat) -> Seq<MessageV>
    decreases ms.len(),
{
    if ms.len() == 0 {
        ms
    } else {
        let last = ms.last();
        let rest = ms.drop_last();
        if is_thinking_message(last) {
            if keep > 0 {
                compress_spec(rest, (keep - 1) as nat).push(last)
            } else {
                compress_spec(rest, 0).push(stub_message(last))
            }
        } else {
            compress_spec(rest, keep).push(last)
        }
    }
}

/// Whether the compression changes anything: some stubbed message carried a
/// long thinking block.
pub open spec fn compress_changed(ms: Seq<MessageV>, keep: nat) -> bool
    decreases ms.len(),
{
    if ms.len() == 0 {
        false
    } else {
        let last = ms.last();
        let rest = ms.drop_last();
        if is_thinking_message(last) {
            if keep > 0 {
                compress_changed(rest, (keep - 1) as nat)
            } else {
                compress_changed(rest, 0) || has_long_thinking(last)
            }
        } else {
            compress_changed(rest, keep)
        }
    }
}

fn message_thinking_probe(m: &Message) -> (r: (bool, bool))
    ensures
        r.0 == is_thinking_message(m.deep_view()),
        r.1 == has_long_thinking(m.deep_view()),
{
    match &m.content {
        MessageContent::Text(_) => (false, false),
        MessageContent::Blocks(bs) => {
            let n = bs.len();
            let mut i: usize = 0;
            let mut any = false;
            let mut long = false;
            while i < n
                invariant
                    n == bs.deep_view().len(),
                    i <= n,
                    any == exists|j: int|
                        0 <= j < i && (#[trigger] bs.deep_view()[j]).kind is Thinking,
                    long == exists|j: int|
                        0 <= j < i && ((#[trigger] bs.deep_view()[j]).kind matches
                            BlockKindV::Thinking {
                            thinking,
                            signature,
                        } && thinking.len() > THINKING_STUB_CHARS as int),
                decreases n - i,
            {
                let (hit, hit_long) = match &bs[i].kind {
                    BlockKind::Thinking { thinking, signature } => (
                        true,
                        thinking.as_str().unicode_len() > THINKING_STUB_CHARS,
                    ),
                    _ => (false, false),
                };
                proof {
                    assert(hit == ((#[trigger] bs.deep_view()[i as int]).kind is Thinking));
                    assert(hit_long == (bs.deep_view()[i as int].kind matches BlockKindV::Thinking {
                        thinking,
                        signature,
                    } && thinking.len() > THINKING_STUB_CHARS as int));
                }
                if hit {
                    any = true;
                }
                if hit_long {
                    long = true;
                }
                i += 1;
            }
            (any, long)
        },
    }
}

fn stub_message_exec(m: Message) -> (r: Message)
    ensures
        r.deep_view() == stub_message(m.deep_view()),
{
    match m.content {
        MessageContent::Text(s) => Message {
            role: m.role,
            content: MessageContent::Text(s),
            cache_control: m.cache_control,
        },
        MessageContent::Blocks(bs) => {
            let ghost orig = bs.deep_view();
            let mut rest = bs;
            let mut out: Vec<ContentBlock> = Vec::new();
            while rest.len() > 0
                invariant
                    out.deep_view().len() + rest.deep_view().len() == orig.len(),
                    forall|k: int| 0 <= k < out.deep_view().len() ==> out.deep_view()[k]
                        == stub_block(orig[k]),
                    forall|k: int| 0 <= k < rest.deep_view().len() ==> rest.deep_view()[k] == orig[
                        out.deep_view().len() + k
                    ],
                decreases rest.len(),
            {
                let ghost rest0 = rest.deep_view();
                let ghost out0 = out.deep_view();
                let b = rest.remove(0);
                proof {
                    assert(rest.deep_view() =~= rest0.skip(1));
                    assert(b.deep_view() == rest0[0]);
                }
                let nb = match b.kind {
                    BlockKind::Thinking { thinking, signature } => {
                        if thinking.as_str().unicode_len() > THINKING_STUB_CHARS {
                            let stub = String::from_str(
                                thinking.as_str().substring_char(0, THINKING_STUB_CHARS),
                            );
                            proof {
                                assert(stub@ =~= thinking@.take(THINKING_STUB_CHARS as int));
                            }
                            ContentBlock {
                                kind: BlockKind::Thinking { thinking: stub, signature },
                                cache_control: b.cache_control,
                            }
                        } else {
                            ContentBlock {
                                kind: BlockKind::Thinking { thinking, signature },
                                cache_control: b.cache_control,
                            }
                        }
                    },
                    other => ContentBlock { kind: other, cache_control: b.cache_control },
                };
                out.push(nb);
                proof {
                    assert(out.deep_view() =~= out0.push(stub_block(orig[out0.len() as int])));
                }
            }
            proof {
                assert(out.deep_view() =~= orig.map_values(|b: ContentBlockV| stub_block(b)));
            }
            Message {
                role: m.role,
                content: MessageContent::Blocks(out),
                cache_control: m.cache_control,
            }
        },
    }
}

/// Cuts long thinking blocks to length-limited stubs in all but the most
/// recent `keep_last_n` thinking messages, preserving every signature.
/// Returns whether any block was cut.
pub fn compress_thinking_preserve_signature(msgs: &mut Vec<Message>, keep_last_n: usize) -> (changed:
    bool)
    ensures
        final(msgs).deep_view() == compress_spec(old(msgs).deep_view(), keep_last_n as nat),
        changed == compress_changed(old(msgs).deep_view(), keep_last_n as nat),
{
    let ghost orig = old(msgs).deep_view();
    let mut stack: Vec<Message> = Vec::new();
    let mut keep_left = keep_last_n;
    let ghost mut done: Seq<MessageV> = Seq::empty();
    let mut changed = false;
    proof {
        assert(compress_spec(orig, keep_last_n as nat) =~= compress_spec(
            msgs.deep_view(),
            keep_left as nat,
        ) + done);
    }
    while msgs.len() > 0
        invariant
            compress_spec(orig, keep_last_n as nat) == compress_spec(
                msgs.deep_view(),
                keep_left as nat,
            ) + done,
            compress_changed(orig, keep_last_n as nat) == (changed || compress_changed(
                msgs.deep_view(),
                keep_left as nat,
            )),
            stack.deep_view().len() == done.len(),
            forall|j: int| 0 <= j < done.len() ==> stack.deep_view()[j] == done[done.len() - 1 - j],
            keep_left <= keep_last_n,
        decreases msgs.len(),
    {
        let ghost rest0 = msgs.deep_view();
        let ghost done0 = done;
        let ghost stack0 = stack.deep_view();
        let m = msgs.pop().unwrap();
        proof {
            assert(msgs.deep_view() =~= rest0.drop_last());
            assert(m.deep_view() == rest0.last());
        }
        let (thinking_msg, long) = message_thinking_probe(&m);
        if thinking_msg {
            if keep_left > 0 {
                keep_left -= 1;
                stack.push(m);
                proof {
                    done = seq![rest0.last()] + done0;
                }
            } else {
                if long {
                    changed = true;
                }
                let em = stub_message_exec(m);
                stack.push(em);
                proof {
                    done = seq![stub_message(rest0.last())] + done0;
                }
            }
        } else {
            stack.push(m);
            proof {
                done = seq![rest0.last()] + done0;
            }
        }
        proof {
            assert(compress_spec(msgs.deep_view(), keep_left as nat) + done =~= compress_spec(
                orig,
                keep_last_n as nat,
            ));
            assert forall|j: int| 0 <= j < done.len() implies stack.deep_view()[j] == done[
                done.len() - 1 - j
            ] by {
                if j < done0.len() {
                    assert(stack.deep_view()[j] == stack0[j]);
                    assert(done[done.len() - 1 - j] == done0[done0.len() - 1 - j]);
                } else {
                    assert(done[done.len() - 1 - j] == done[0]);
                }
            }
        }
    }
    proof {
        assert(msgs.deep_view() =~= Seq::<MessageV>::empty());
        assert(done =~= compress_spec(orig, keep_last_n as nat));
    }
    while stack.len() > 0
        invariant
            stack.deep_view().len() <= done.len(),
            msgs.deep_view().len() + stack.deep_view().len() == done.len(),
            forall|j: int| 0 <= j < stack.deep_view().len() ==> stack.deep_view()[j] == done[
                done.len() - 1 - j
            ],
            forall|j: int| 0 <= j < msgs.deep_view().len() ==> msgs.deep_view()[j] == done[j],
            done == compress_spec(orig, keep_last_n as nat),
        decreases stack.len(),
    {
        let ghost msgs0 = msgs.deep_view();
        let ghost stack0 = stack.deep_view();
        let m = stack.pop().unwrap();
        proof {
            assert(stack.deep_view() =~= stack0.drop_last());
            assert(m.deep_view() == stack0.last());
            assert(m.deep_view() == done[done.len() - 1 - (stack0.len() - 1)]);
        }
        msgs.push(m);
        proof {
            assert(msgs.deep_view() =~= msgs0.push(done[msgs0.len() as int]));
        }
    }
    proof {
        assert(final(msgs).deep_view() =~= done);
    }
    changed
}

// ---------------------------------------------------------------------------
// History purification
// ---------------------------------------------------------------------------

/// How hard the purification scrubs: `Aggressive` keeps only plain text,
/// `Conservative` drops only thinking blocks.
#[derive(Debug, Clone, Copy, PartialEq, Eq, Structural)]
pub enum PurificationStrategy {
    Aggressive,
    Conservative,
}

/// Whether a block survives purification under `strat`.
pub open spec fn purify_keeps(b: ContentBlockV, strat: PurificationStrategy) -> bool {
    match strat {
        PurificationStrategy::Aggressive => b.kind is Text,
        PurificationStrategy::Conservative => !(b.kind is Thinking) && !(
        b.kind is RedactedThinking),
    }
}

pub open spec fn purify_blocks(bs: Seq<ContentBlockV>, strat: PurificationStrategy) -> Seq<
    ContentBlockV,
>
    decreases bs.len(),
{
    if bs.len() == 0 {
        Seq::empty()
    } else {
        let rest = purify_blocks(bs.drop_last(), strat);
        if purify_keeps(bs.last(), strat) {
            rest.push(bs.last())
        } else {
            rest
        }
    }
}

/// A purified message keeps plain-text content whole and filters block lists;
/// a message whose block list empties out is dropped from the history.
pub open spec fn purify_spec(ms: Seq<MessageV>, strat: PurificationStrategy) -> Seq<MessageV>
    decreases ms.len(),
{
    if ms.len() == 0 {
        Seq::empty()
    } else {
        let rest = purify_spec(ms.drop_last(), strat);
        let m = ms.last();
        match m.content {
            MessageContentV::Text(s) => rest.push(m),
            MessageContentV::Blocks(bs) => {
                let pb = purify_blocks(bs, strat);
                if pb.len() == 0 {
                    rest
                } else {
                    rest.push(
                        MessageV {
                            role: m.role,
                            content: MessageContentV::Blocks(pb),
                            cache_control: m.cache_control,
                        },
                    )
                }
            },
        }
    }
}

fn purify_blocks_exec(bs: Vec<ContentBlock>, strat: PurificationStrategy) -> (r: Vec<ContentBlock>)
    ensures
        r.deep_view() == purify_blocks(bs.deep_view(), strat),
{
    let ghost orig = bs.deep_view();
    let mut rest = bs;
    let mut out: Vec<ContentBlock> = Vec::new();
    let ghost consumed: int = 0;
    proof {
        assert(orig.take(0) =~= Seq::<ContentBlockV>::empty());
    }
    while rest.len() > 0
        invariant
            0 <= consumed <= orig.len(),
            rest.deep_view().len() == orig.len() - consumed,
            forall|k: int| 0 <= k < rest.deep_view().len() ==> rest.deep_view()[k] == orig[
                consumed + k
            ],
            out.deep_view() == purify_blocks(orig.take(consumed), strat),
        decreases rest.len(),
    {
        let ghost out0 = out.deep_view();
        let ghost rest0 = rest.deep_view();
        let b = rest.remove(0);
        proof {
            assert(rest.deep_view() =~= rest0.skip(1));
            assert(b.deep_view() == rest0[0]);
            assert(b.deep_view() == orig[consumed]);
            assert(orig.take(consumed + 1).drop_last() =~= orig.take(consumed));
            assert(orig.take(consumed + 1).last() == orig[consumed]);
        }
        let keep = match strat {
            PurificationStrategy::Aggressive => match &b.kind {
                BlockKind::Text { text } => true,
                _ => false,
            },
            PurificationStrategy::Conservative => match &b.kind {
                BlockKind::Thinking { thinking, signature } => false,
                BlockKind::RedactedThinking { data } => false,
                _ => true,
            },
        };
        if keep {
            out.push(b);
            proof {
                assert(out.deep_view() =~= out0.push(orig[consumed]));
            }
        }
        proof {
            consumed = consumed + 1;
        }
    }
    proof {
        assert(orig.take(consumed) =~= orig);
    }
    out
}

/// Cleanses the history for background tasks: `Aggressive` keeps plain text
/// only, `Conservative` drops thinking blocks; messages left without blocks
/// disappear.
pub fn purify_history(msgs: &mut Vec<Message>, strat: PurificationStrategy)
    ensures
        final(msgs).deep_view() == purify_spec(old(msgs).deep_view(), strat),
{
    let ghost orig = old(msgs).deep_view();
    let mut out: Vec<Message> = Vec::new();
    let ghost consumed: int = 0;
    proof {
        assert(orig.take(0) =~= Seq::<MessageV>::empty());
        assert(purify_spec(orig.take(0), strat) =~= Seq::<MessageV>::empty());
    }
    while msgs.len() > 0
        invariant
            0 <= consumed <= orig.len(),
            msgs.deep_view().len() == orig.len() - consumed,
            forall|k: int| 0 <= k < msgs.deep_view().len() ==> msgs.deep_view()[k] == orig[
                consumed + k
            ],
            out.deep_view() == purify_spec(orig.take(consumed), strat),
        decreases msgs.len(),
    {
        let ghost out0 = out.deep_view();
        let ghost rest0 = msgs.deep_view();
        let m = msgs.remove(0);
        proof {
            assert(msgs.deep_view() =~= rest0.skip(1));
            assert(m.deep_view() == rest0[0]);
            assert(m.deep_view() == orig[consumed]);
            assert(orig.take(consumed + 1).drop_last() =~= orig.take(consumed));
            assert(orig.take(consumed + 1).last() == orig[consumed]);
        }
        match m.content {
            MessageContent::Text(s) => {
                out.push(
                    Message {
                        role: m.role,
                        content: MessageContent::Text(s),
                        cache_control: m.cache_control,
                    },
                );
                proof {
                    assert(out.deep_view() =~= out0.push(orig[consumed]));
                }
            },
            MessageContent::Blocks(bs) => {
                let pb = purify_blocks_exec(bs, strat);
                if pb.len() > 0 {
                    let nm = Message {
                        role: m.role,
                        content: MessageContent::Blocks(pb),
                        cache_control: m.cache_control,
                    };
                    out.push(nm);
                    proof {
                        assert(out.deep_view() =~= out0.push(
                            purify_spec(orig.take(consumed + 1), strat).last(),
                        ));
                    }
                }
            },
        }
        proof {
            consumed = consumed + 1;
        }
    }
    proof {
        assert(orig.take(consumed) =~= orig);
    }
    *msgs = out;
}

// ---------------------------------------------------------------------------
// Deep copies
// ---------------------------------------------------------------------------

fn duplicate_string(s: &String) -> (r: String)
    ensures
        r@ == s@,
{
    String::from_str(s.as_str())
}

fn duplicate_opt_string(s: &Option<String>) -> (r: Option<String>)
    ensures
        r.deep_view() == s.deep_view(),
{
    match s {
        Some(v) => Some(duplicate_string(v)),
        None => None,
    }
}

fn duplicate_block(b: &ContentBlock) -> (r: ContentBlock)
    ensures
        r.deep_view() == b.deep_view(),
{
    let kind = match &b.kind {
        BlockKind::Text { text } => BlockKind::Text { text: duplicate_string(text) },
        BlockKind::Image { media_type, data } => BlockKind::Image {
            media_type: duplicate_string(media_type),
            data: duplicate_string(data),
        },
        BlockKind::ToolUse { id, name, input_json } => BlockKind::ToolUse {
            id: duplicate_string(id),
            name: duplicate_string(name),
            input_json: duplicate_string(input_json),
        },
        BlockKind::ToolResult { tool_use_id, content } => BlockKind::ToolResult {
            tool_use_id: duplicate_string(tool_use_id),
            content: duplicate_string(content),
        },
        BlockKind::Thinking { thinking, signature } => BlockKind::Thinking {
            thinking: duplicate_string(thinking),
            signature: duplicate_string(signature),
        },
        BlockKind::RedactedThinking { data } => BlockKind::RedactedThinking {
            data: duplicate_string(data),
        },
    };
    ContentBlock { kind, cache_control: duplicate_opt_string(&b.cache_control) }
}

/// A structural copy of a message, equal to the original in the model.
pub fn duplicate_message(m: &Message) -> (r: Message)
    ensures
        r.deep_view() == m.deep_view(),
{
    let content = match &m.content {
        MessageContent::Text(s) => MessageContent::Text(duplicate_string(s)),
        MessageContent::Blocks(bs) => {
            let n = bs.len();
            let mut out: Vec<ContentBlock> = Vec::new();
            let mut i: usize = 0;
            while i < n
                invariant
                    n == bs@.len(),
                    bs.deep_view().len() == n,
                    i <= n,
                    out.deep_view().len() == i,
                    forall|k: int| 0 <= k < i ==> out.deep_view()[k] == bs.deep_view()[k],
                decreases n - i,
            {
                let ghost out0 = out.deep_view();
                out.push(duplicate_block(&bs[i]));
                proof {
                    assert(out.deep_view() =~= out0.push(bs.deep_view()[i as int]));
                }
                i += 1;
            }
            proof {
                assert(out.deep_view() =~= bs.deep_view());
            }
            MessageContent::Blocks(out)
        },
    };
    Message {
        role: duplicate_string(&m.role),
        content,
        cache_control: duplicate_opt_string(&m.cache_control),
    }
}

fn duplicate_messages(ms: &Vec<Message>) -> (r: Vec<Message>)
    ensures
        r.deep_view() == ms.deep_view(),
{
    let n = ms.len();
    let mut out: Vec<Message> = Vec::new();
    let mut i: usize = 0;
    while i < n
        invariant
            n == ms@.len(),
            ms.deep_view().len() == n,
            i <= n,
            out.deep_view().len() == i,
            forall|k: int| 0 <= k < i ==> out.deep_view()[k] == ms.deep_view()[k],
        decreases n - i,
    {
        let ghost out0 = out.deep_view();
        out.push(duplicate_message(&ms[i]));
        proof {
            assert(out.deep_view() =~= out0.push(ms.deep_view()[i as int]));
        }
        i += 1;
    }
    proof {
        assert(out.deep_view() =~= ms.deep_view());
    }
    out
}

/// A structural copy of a request, equal to the original in the model.
pub fn duplicate_request(r: &AnthropicRequest) -> (d: AnthropicRequest)
    ensures
        d.deep_view() == r.deep_view(),
{
    let tools = match &r.tools {
        Some(ts) => {
            let n = ts.len();
            let mut out: Vec<crate::models::ToolDef> = Vec::new();
            let mut i: usize = 0;
            while i < n
                invariant
                    n == ts@.len(),
                    ts.deep_view().len() == n,
                    i <= n,
                    out.deep_view().len() == i,
                    forall|k: int| 0 <= k < i ==> out.deep_view()[k] == ts.deep_view()[k],
                decreases n - i,
            {
                let ghost out0 = out.deep_view();
                out.push(
                    crate::models::ToolDef {
                        name: duplicate_string(&ts[i].name),
                        description: duplicate_string(&ts[i].description),
                        input_schema_json: duplicate_string(&ts[i].input_schema_json),
                    },
                );
                proof {
                    assert(out.deep_view() =~= out0.push(ts.deep_view()[i as int]));
                }
                i += 1;
            }
            proof {
                assert(out.deep_view() =~= ts.deep_view());
            }
            Some(out)
        },
        None => None,
    };
    let d = AnthropicRequest {
        model: duplicate_string(&r.model),
        stream: r.stream,
        system: duplicate_opt_string(&r.system),
        messages: duplicate_messages(&r.messages),
        tools,
        thinking: r.thinking,
        sampling: r.sampling,
        size: duplicate_opt_string(&r.size),
        quality: duplicate_opt_string(&r.quality),
    };
    proof {
        assert(d.deep_view().tools =~= r.deep_view().tools);
    }
    d
}

// ---------------------------------------------------------------------------
// The progressive cascade
// ---------------------------------------------------------------------------

/// How many recent tool messages layer one keeps.
pub const TRIM_KEEP_LAST: usize = 5;

/// How many recent thinking messages layer two keeps.
pub const COMPRESS_KEEP_LAST: usize = 4;

/// The structural estimate capped at the integer bound.
pub open spec fn capped_tokens(r: AnthropicRequestV) -> u64 {
    if request_tokens(r) <= u64::MAX {
        request_tokens(r) as u64
    } else {
        u64::MAX
    }
}

/// The calibrated estimate of a request under the given factor, rounded to
/// the nearest token.
pub open spec fn calibrated_tokens(r: AnthropicRequestV, factor: u32) -> u64 {
    let raw = capped_tokens(r);
    if (raw * factor + 500) / 1000 <= u64::MAX {
        ((raw * factor + 500) / 1000) as u64
    } else {
        u64::MAX
    }
}

/// The usage ratio `est / limit` exceeds a threshold given in thousandths.
pub open spec fn ratio_exceeds(est: u64, limit: u64, threshold_milli: u32) -> bool {
    est * 1000 > threshold_milli * limit
}

/// The request with its history replaced.
pub open spec fn with_messages(r: AnthropicRequestV, ms: Seq<MessageV>) -> AnthropicRequestV {
    AnthropicRequestV { messages: ms, ..r }
}

/// The whole three-layer cascade on a request: the resulting history,
/// whether layer two purified it, and whether layer three (fork and
/// summarize) is called for. At most one layer counts as applied; a layer
/// one result still at seventy percent of the limit lets layer two run too.
pub open spec fn compression_plan(
    r: AnthropicRequestV,
    factor: u32,
    l1: u32,
    l2: u32,
    l3: u32,
    limit: u64,
    enabled: bool,
) -> (Seq<MessageV>, bool, bool) {
    if !enabled {
        (r.messages, false, false)
    } else {
        let est0 = calibrated_tokens(r, factor);
        let cond1 = ratio_exceeds(est0, limit, l1);
        let changed1 = count_tool_messages(r.messages) > TRIM_KEEP_LAST;
        let ms1 = if cond1 {
            trim_spec(r.messages, TRIM_KEEP_LAST as nat)
        } else {
            r.messages
        };
        let est1 = if cond1 && changed1 {
            calibrated_tokens(with_messages(r, ms1), factor)
        } else {
            est0
        };
        let applied1 = cond1 && changed1 && est1 * 10 < 7 * limit;
        let cond2 = ratio_exceeds(est1, limit, l2) && !applied1;
        let changed2 = compress_changed(ms1, COMPRESS_KEEP_LAST as nat);
        let ms2 = if cond2 {
            compress_spec(ms1, COMPRESS_KEEP_LAST as nat)
        } else {
            ms1
        };
        let est2 = if cond2 && changed2 {
            calibrated_tokens(with_messages(r, ms2), factor)
        } else {
            est1
        };
        let purified = cond2 && changed2;
        let applied2 = applied1 || purified;
        let needs_summary = ratio_exceeds(est2, limit, l3) && !applied2;
        (ms2, purified, needs_summary)
    }
}

fn ratio_exceeds_exec(est: u64, limit: u64, threshold_milli: u32) -> (r: bool)
    ensures
        r == ratio_exceeds(est, limit, threshold_milli),
{
    proof {
        assert(threshold_milli as int * limit as int <= u32::MAX as int * u64::MAX as int)
            by (nonlinear_arith)
            requires
                threshold_milli <= u32::MAX,
                limit <= u64::MAX,
        ;
    }
    let lhs: u128 = est as u128 * 1000;
    let rhs: u128 = threshold_milli as u128 * limit as u128;
    lhs > rhs
}

/// Runs the progressive compression on the request: tool trimming above the
/// first threshold, thinking compression above the second when trimming did
/// not settle the pressure, and the fork-and-summarize verdict above the
/// third. Returns (purified, needs_summary); the caller performs the
/// summary call itself when asked to. Disabled (or after the strip-thinking
/// recovery) nothing changes.
pub fn run_progressive_compression(
    req: &mut AnthropicRequest,
    cal: &Calibrator,
    threshold_l1_milli: u32,
    threshold_l2_milli: u32,
    threshold_l3_milli: u32,
    context_limit: u64,
    enabled: bool,
) -> (r: (bool, bool))
    requires
        cal.wf(),
    ensures
        ({
            let plan = compression_plan(
                old(req).deep_view(),
                cal.factor_milli,
                threshold_l1_milli,
                threshold_l2_milli,
                threshold_l3_milli,
                context_limit,
                enabled,
            );
            &&& final(req).deep_view().messages == plan.0
            &&& r.0 == plan.1
            &&& r.1 == plan.2
            &&& final(req).deep_view().model == old(req).deep_view().model
            &&& final(req).deep_view().stream == old(req).deep_view().stream
            &&& final(req).deep_view().system == old(req).deep_view().system
            &&& final(req).deep_view().tools == old(req).deep_view().tools
            &&& final(req).deep_view().thinking == old(req).deep_view().thinking
        }),
{
    if !enabled {
        return (false, false);
    }
    let ghost rv = req.deep_view();
    let dup = duplicate_request(req);
    let est0 = cal.calibrate(estimate_token_usage(&dup));
    let mut work = dup;
    let cond1 = ratio_exceeds_exec(est0, context_limit, threshold_l1_milli);
    let mut changed1 = false;
    if cond1 {
        let mut msgs = work.messages;
        changed1 = trim_tool_messages(&mut msgs, TRIM_KEEP_LAST);
        work.messages = msgs;
    }
    let est1 = if cond1 && changed1 {
        cal.calibrate(estimate_token_usage(&work))
    } else {
        est0
    };
    let applied1 = cond1 && changed1 && {
        let lhs: u128 = est1 as u128 * 10;
        let rhs: u128 = 7 * context_limit as u128;
        lhs < rhs
    };
    let cond2 = ratio_exceeds_exec(est1, context_limit, threshold_l2_milli) && !applied1;
    let mut changed2 = false;
    if cond2 {
        let mut msgs = work.messages;
        changed2 = compress_thinking_preserve_signature(&mut msgs, COMPRESS_KEEP_LAST);
        work.messages = msgs;
    }
    let est2 = if cond2 && changed2 {
        cal.calibrate(estimate_token_usage(&work))
    } else {
        est1
    };
    let purified = cond2 && changed2;
    let applied2 = applied1 || purified;
    let needs_summary = ratio_exceeds_exec(est2, context_limit, threshold_l3_milli) && !applied2;
    *req = work;
    proof {
        let plan = compression_plan(
            rv,
            cal.factor_milli,
            threshold_l1_milli,
            threshold_l2_milli,
            threshold_l3_milli,
            context_limit,
            true,
        );
        assert(final(req).deep_view().messages == plan.0);
    }
    (purified, needs_summary)
}

// ---------------------------------------------------------------------------
// Layer 3: fork and summarize
// ---------------------------------------------------------------------------

/// The fixed instruction of the auxiliary summary call.
pub const CONTEXT_SUMMARY_PROMPT: &'static str =
    "Summarize the conversation so far into a compact context note. Keep decisions, open tasks, and facts needed to continue; omit pleasantries.";

/// Prefix of the summary message that heads a forked request.
pub const FORK_SUMMARY_PREFIX: &'static str = "Context summary of the earlier conversation:\n";

/// Builds the auxiliary summary request: the same history with the fixed
/// summary prompt appended as a user turn, no tools, no thinking, not
/// streamed.
pub fn build_summary_request(r: &AnthropicRequest) -> (s: AnthropicRequest)
    ensures
        s.deep_view().model == r.deep_view().model,
        s.deep_view().stream == false,
        s.deep_view().tools is None,
        s.deep_view().thinking is None,
        s.deep_view().messages == r.deep_view().messages.push(
            (MessageV {
                role: "user"@,
                content: MessageContentV::Text(CONTEXT_SUMMARY_PROMPT@),
                cache_control: None,
            }),
        ),
{
    let mut messages = duplicate_messages(&r.messages);
    let ghost before = messages.deep_view();
    messages.push(
        Message {
            role: String::from_str("user"),
            content: MessageContent::Text(String::from_str(CONTEXT_SUMMARY_PROMPT)),
            cache_control: None,
        },
    );
    proof {
        assert(messages.deep_view() =~= before.push(
            MessageV {
                role: "user"@,
                content: MessageContentV::Text(CONTEXT_SUMMARY_PROMPT@),
                cache_control: None,
            },
        ));
    }
    AnthropicRequest {
        model: duplicate_string(&r.model),
        stream: false,
        system: duplicate_opt_string(&r.system),
        messages,
        tools: None,
        thinking: None,
        sampling: r.sampling,
        size: None,
        quality: None,
    }
}

/// Builds the forked request after a successful summary call: a two-turn
/// history of the summary (as a user turn) and the original last message.
/// The fork applies only to histories of three or more messages, which it
/// strictly shrinks.
pub fn build_forked_request(r: &AnthropicRequest, summary: &str) -> (f: AnthropicRequest)
    requires
        r.messages@.len() >= 3,
    ensures
        f.deep_view().model == r.deep_view().model,
        f.deep_view().stream == r.deep_view().stream,
        f.deep_view().messages.len() == 2,
        f.deep_view().messages.len() < r.deep_view().messages.len(),
        f.deep_view().messages[0] == (MessageV {
            role: "user"@,
            content: MessageContentV::Text(FORK_SUMMARY_PREFIX@ + summary@),
            cache_control: None,
        }),
        f.deep_view().messages[1] == r.deep_view().messages.last(),
{
    let mut messages: Vec<Message> = Vec::new();
    messages.push(
        Message {
            role: String::from_str("user"),
            content: MessageContent::Text(String::from_str(FORK_SUMMARY_PREFIX).concat(summary)),
            cache_control: None,
        },
    );
    let n = r.messages.len();
    messages.push(duplicate_message(&r.messages[n - 1]));
    proof {
        assert(r.messages.deep_view().len() == n);
        assert(messages.deep_view()[1] == r.deep_view().messages.last());
    }
    AnthropicRequest {
        model: duplicate_string(&r.model),
        stream: r.stream,
        system: duplicate_opt_string(&r.system),
        messages,
        tools: match &r.tools {
            Some(_) => None,
            None => None,
        },
        thinking: r.thinking,
        sampling: r.sampling,
        size: None,
        quality: None,
    }
}

} // verus!

//! Pre-translation cleansing of the message history (idempotent): cache-hint
//! removal, merging of consecutive same-role messages, dropping of thinking
//! blocks with unusable signatures, and tool-loop closing.
use vstd::prelude::*;

use crate::models::{BlockKind, BlockKindV, ContentBlock, ContentBlockV, Message, MessageContent,
    MessageContentV, MessageV};

verus! {

/// A block with its cache hint removed.
pub open spec fn clean_block(b: ContentBlockV) -> ContentBlockV {
    ContentBlockV { kind: b.kind, cache_control: None }
}

/// Message content with every cache hint removed.
pub open spec fn clean_content(c: MessageContentV) -> MessageContentV {
    match c {
        MessageContentV::Text(s) => MessageContentV::Text(s),
        MessageContentV::Blocks(bs) => MessageContentV::Blocks(
            bs.map_values(|b: ContentBlockV| clean_block(b)),
        ),
    }
}

/// A message with every cache hint removed.
pub open spec fn clean_message(m: MessageV) -> MessageV {
    MessageV { role: m.role, content: clean_content(m.content), cache_control: None }
}

/// The whole history with every cache hint removed.
pub open spec fn clean_messages(ms: Seq<MessageV>) -> Seq<MessageV> {
    ms.map_values(|m: MessageV| clean_message(m))
}

/// No cache hint survives anywhere in `ms`.
pub open spec fn no_cache_hints(ms: Seq<MessageV>) -> bool {
    forall|i: int|
        0 <= i < ms.len() ==> {
            &&& (#[trigger] ms[i]).cache_control is None
            &&& (ms[i].content matches MessageContentV::Blocks(bs) ==> forall|j: int|
                0 <= j < bs.len() ==> (#[trigger] bs[j]).cache_control is None)
        }
}

fn clean_blocks(bs: Vec<ContentBlock>) -> (r: Vec<ContentBlock>)
    ensures
        r.deep_view() == bs.deep_view().map_values(|b: ContentBlockV| clean_block(b)),
{
    let ghost orig = bs.deep_view();
    let mut rest = bs;
    let mut out: Vec<ContentBlock> = Vec::new();
    while rest.len() > 0
        invariant
            out.deep_view().len() + rest.deep_view().len() == orig.len(),
            forall|k: int| 0 <= k < out.deep_view().len() ==> out.deep_view()[k] == clean_block(
                orig[k],
            ),
            forall|k: int| 0 <= k < rest.deep_view().len() ==> rest.deep_view()[k] == orig[out.deep_view().len() + k],
        decreases rest.len(),
    {
        let ghost rest0 = rest.deep_view();
        let ghost out0 = out.deep_view();
        let b = rest.remove(0);
        out.push(ContentBlock { kind: b.kind, cache_control: None });
        proof {
            assert(rest.deep_view() =~= rest0.skip(1));
            assert(out.deep_view() =~= out0.push(clean_block(rest0[0])));
        }
    }
    proof {
        assert(out.deep_view() =~= orig.map_values(|b: ContentBlockV| clean_block(b)));
    }
    out
}

fn clean_one_message(m: Message) -> (r: Message)
    ensures
        r.deep_view() == clean_message(m.deep_view()),
{
    match m.content {
        MessageContent::Text(s) => Message {
            role: m.role,
            content: MessageContent::Text(s),
            cache_control: None,
        },
        MessageContent::Blocks(bs) => Message {
            role: m.role,
            content: MessageContent::Blocks(clean_blocks(bs)),
            cache_control: None,
        },
    }
}

/// Removes every provider-specific cache hint from the history, at the
/// message level and inside every block list.
pub fn clean_cache_control_from_messages(msgs: &mut Vec<Message>)
    ensures
        final(msgs).deep_view() == clean_messages(old(msgs).deep_view()),
        no_cache_hints(final(msgs).deep_view()),
{
    let ghost orig = old(msgs).deep_view();
    let mut out: Vec<Message> = Vec::new();
    while msgs.len() > 0
        invariant
            out.deep_view().len() + msgs.deep_view().len() == orig.len(),
            forall|k: int| 0 <= k < out.deep_view().len() ==> out.deep_view()[k] == clean_message(
                orig[k],
            ),
            forall|k: int| 0 <= k < msgs.deep_view().len() ==> msgs.deep_view()[k] == orig[out.deep_view().len() + k],
        decreases msgs.len(),
    {
        let ghost rest0 = msgs.deep_view();
        let ghost out0 = out.deep_view();
        let m = msgs.remove(0);
        out.push(clean_one_message(m));
        proof {
            assert(msgs.deep_view() =~= rest0.skip(1));
            assert(out.deep_view() =~= out0.push(clean_message(rest0[0])));
        }
    }
    *msgs = out;
    proof {
        assert(final(msgs).deep_view() =~= clean_messages(orig));
        assert forall|i: int| 0 <= i < final(msgs).deep_view().len() implies {
            &&& (#[trigger] final(msgs).deep_view()[i]).cache_control is None
            &&& (final(msgs).deep_view()[i].content matches MessageContentV::Blocks(bs)
                ==> forall|j: int|
                    0 <= j < bs.len() ==> (#[trigger] bs[j]).cache_control is None)
        } by {
            let mi = clean_messages(orig)[i];
            assert(mi == clean_message(orig[i]));
            if mi.content is Blocks {
                let bs = mi.content->Blocks_0;
                let obs = orig[i].content->Blocks_0;
                assert(bs == obs.map_values(|b: ContentBlockV| clean_block(b)));
                assert(forall|j: int| 0 <= j < bs.len() ==> (#[trigger] bs[j]) == clean_block(
                    obs[j],
                ));
            }
        }
    }
}

// ---------------------------------------------------------------------------
// Merging of consecutive same-role messages
// ---------------------------------------------------------------------------

/// Message content as a block list: plain text becomes a single text block
/// without a cache hint.
pub open spec fn as_blocks(c: MessageContentV) -> Seq<ContentBlockV> {
    match c {
        MessageContentV::Text(s) => seq![
            ContentBlockV { kind: BlockKindV::Text { text: s }, cache_control: None },
        ],
        MessageContentV::Blocks(bs) => bs,
    }
}

/// Two adjacent same-role messages folded into one: the first message's role
/// and cache hint, and the two block lists in order.
pub open spec fn merged_pair(a: MessageV, b: MessageV) -> MessageV {
    MessageV {
        role: a.role,
        content: MessageContentV::Blocks(as_blocks(a.content) + as_blocks(b.content)),
        cache_control: a.cache_control,
    }
}

/// One step of the merge: `m` joins the last accumulated message when the
/// roles agree, else it is appended.
pub open spec fn merge_push(acc: Seq<MessageV>, m: MessageV) -> Seq<MessageV> {
    if acc.len() > 0 && acc.last().role == m.role {
        acc.update(acc.len() - 1, merged_pair(acc.last(), m))
    } else {
        acc.push(m)
    }
}

/// The history with adjacent same-role messages combined, front to back.
pub open spec fn merge_messages(ms: Seq<MessageV>) -> Seq<MessageV>
    decreases ms.len(),
{
    if ms.len() == 0 {
        Seq::empty()
    } else {
        merge_push(merge_messages(ms.drop_last()), ms.last())
    }
}

/// No two adjacent messages share a role.
pub open spec fn no_consecutive_same_role(ms: Seq<MessageV>) -> bool {
    forall|i: int| 0 <= i < ms.len() - 1 ==> (#[trigger] ms[i]).role != ms[i + 1].role
}

fn as_blocks_exec(c: MessageContent) -> (r: Vec<ContentBlock>)
    ensures
        r.deep_view() == as_blocks(c.deep_view()),
{
    match c {
        MessageContent::Text(s) => {
            let mut v: Vec<ContentBlock> = Vec::new();
            v.push(ContentBlock { kind: BlockKind::Text { text: s }, cache_control: None });
            proof {
                assert(v.deep_view() =~= as_blocks(
                    MessageContentV::Text(c.deep_view()->Text_0),
                ));
            }
            v
        },
        MessageContent::Blocks(bs) => bs,
    }
}

fn merge_pair_exec(a: Message, b: Message) -> (r: Message)
    ensures
        r.deep_view() == merged_pair(a.deep_view(), b.deep_view()),
{
    let ghost av = a.deep_view();
    let ghost bv = b.deep_view();
    let mut blocks = as_blocks_exec(a.content);
    let mut tail = as_blocks_exec(b.content);
    blocks.append(&mut tail);
    proof {
        assert(blocks.deep_view() =~= as_blocks(av.content) + as_blocks(bv.content));
    }
    Message {
        role: a.role,
        content: MessageContent::Blocks(blocks),
        cache_control: a.cache_control,
    }
}

/// Combines adjacent same-role messages so that the history alternates roles,
/// as the upstream requires.
pub fn merge_consecutive_messages(msgs: &mut Vec<Message>)
    ensures
        final(msgs).deep_view() == merge_messages(old(msgs).deep_view()),
        no_consecutive_same_role(final(msgs).deep_view()),
{
    let ghost orig = old(msgs).deep_view();
    let mut out: Vec<Message> = Vec::new();
    let ghost consumed: int = 0;
    proof {
        assert(orig.take(0) =~= Seq::<MessageV>::empty());
    }
    while msgs.len() > 0
        invariant
            0 <= consumed <= orig.len(),
            msgs.deep_view().len() == orig.len() - consumed,
            forall|k: int| 0 <= k < msgs.deep_view().len() ==> msgs.deep_view()[k] == orig[
                consumed + k
            ],
            out.deep_view() == merge_messages(orig.take(consumed)),
        decreases msgs.len(),
    {
        let ghost out0 = out.deep_view();
        let ghost rest0 = msgs.deep_view();
        let m = msgs.remove(0);
        proof {
            assert(msgs.deep_view() =~= rest0.skip(1));
            assert(m.deep_view() == rest0[0]);
            assert(m.deep_view() == orig[consumed]);
            assert(orig.take(consumed + 1).drop_last() =~= orig.take(consumed));
            assert(orig.take(consumed + 1).last() == orig[consumed]);
        }
        let olen = out.len();
        if olen > 0 && crate::strutil::str_eq(out[olen - 1].role.as_str(), m.role.as_str()) {
            let last = out.pop().unwrap();
            let merged = merge_pair_exec(last, m);
            out.push(merged);
            proof {
                assert(out.deep_view() =~= out0.update(
                    out0.len() - 1,
                    merged_pair(out0.last(), orig[consumed]),
                ));
            }
        } else {
            out.push(m);
            proof {
                assert(out.deep_view() =~= out0.push(orig[consumed]));
            }
        }
        proof {
            consumed = consumed + 1;
        }
    }
    proof {
        assert(orig.take(consumed) =~= orig);
    }
    *msgs = out;
    proof {
        lemma_merge_no_consecutive(orig);
    }
}

/// The merged history never holds two adjacent messages of one role.
pub proof fn lemma_merge_no_consecutive(ms: Seq<MessageV>)
    ensures
        no_consecutive_same_role(merge_messages(ms)),
    decreases ms.len(),
{
    if ms.len() > 0 {
        lemma_merge_no_consecutive(ms.drop_last());
        let pre = merge_messages(ms.drop_last());
        let m = ms.last();
        if pre.len() > 0 && pre.last().role == m.role {
            let merged = merge_push(pre, m);
            assert forall|i: int| 0 <= i < merged.len() - 1 implies (#[trigger] merged[i]).role
                != merged[i + 1].role by {
                if i + 1 < merged.len() - 1 {
                    assert(merged[i] == pre[i] && merged[i + 1] == pre[i + 1]);
                } else {
                    assert(merged[i] == pre[i]);
                    assert(merged[i + 1].role == pre.last().role);
                }
            }
        }
    }
}

/// A history already free of adjacent same-role messages is a fixed point of
/// the merge.
pub proof fn lemma_merge_fixed_point(ms: Seq<MessageV>)
    requires
        no_consecutive_same_role(ms),
    ensures
        merge_messages(ms) == ms,
    decreases ms.len(),
{
    if ms.len() == 0 {
        assert(merge_messages(ms) =~= ms);
    } else {
        assert(no_consecutive_same_role(ms.drop_last())) by {
            assert(forall|i: int| 0 <= i < ms.len() - 1 ==> (#[trigger] ms.drop_last()[i])
                == ms[i]);
        }
        lemma_merge_fixed_point(ms.drop_last());
        let pre = ms.drop_last();
        if pre.len() > 0 {
            assert(pre.last().role != ms.last().role) by {
                assert(ms[ms.len() - 2].role != ms[ms.len() - 2 + 1].role);
            }
        }
        assert(merge_messages(ms) =~= ms);
    }
}

/// Merging is idempotent.
pub proof fn lemma_merge_idempotent(ms: Seq<MessageV>)
    ensures
        merge_messages(merge_messages(ms)) == merge_messages(ms),
{
    lemma_merge_no_consecutive(ms);
    lemma_merge_fixed_point(merge_messages(ms));
}

// ---------------------------------------------------------------------------
// Thinking-block filtering
// ---------------------------------------------------------------------------

/// Shortest signature the upstream accepts on a thinking block.
pub const MIN_SIGNATURE_LENGTH: usize = 32;

/// Whether a block survives the signature filter for provider family `fam`.
/// A thinking block needs a signature of at least `MIN_SIGNATURE_LENGTH`
/// characters; an opaque redacted-thinking block can only be validated by the
/// family that issued it, so it survives only when the target family is
/// `anthropic`.
pub open spec fn keep_block(b: ContentBlockV, fam: Seq<char>) -> bool {
    match b.kind {
        BlockKindV::Thinking { thinking, signature } => signature.len()
            >= MIN_SIGNATURE_LENGTH as int,
        BlockKindV::RedactedThinking { data } => fam == "anthropic"@,
        _ => true,
    }
}

/// The block list with every filtered block removed.
pub open spec fn filter_blocks(bs: Seq<ContentBlockV>, fam: Seq<char>) -> Seq<ContentBlockV>
    decreases bs.len(),
{
    if bs.len() == 0 {
        Seq::empty()
    } else {
        let rest = filter_blocks(bs.drop_last(), fam);
        if keep_block(bs.last(), fam) {
            rest.push(bs.last())
        } else {
            rest
        }
    }
}

/// A message with its block list filtered; plain-text content is untouched.
pub open spec fn filter_message(m: MessageV, fam: Seq<char>) -> MessageV {
    match m.content {
        MessageContentV::Text(s) => m,
        MessageContentV::Blocks(bs) => MessageV {
            role: m.role,
            content: MessageContentV::Blocks(filter_blocks(bs, fam)),
            cache_control: m.cache_control,
        },
    }
}

/// The whole history filtered.
pub open spec fn filter_messages(ms: Seq<MessageV>, fam: Seq<char>) -> Seq<MessageV> {
    ms.map_values(|m: MessageV| filter_message(m, fam))
}

/// Every surviving thinking block carries a signature of acceptable length.
pub open spec fn no_short_thinking(ms: Seq<MessageV>) -> bool {
    forall|i: int|
        0 <= i < ms.len() ==> ((#[trigger] ms[i]).content matches MessageContentV::Blocks(bs)
            ==> forall|j: int|
                0 <= j < bs.len() ==> ((#[trigger] bs[j]).kind matches BlockKindV::Thinking {
                    thinking,
                    signature,
                } ==> signature.len() >= MIN_SIGNATURE_LENGTH as int))
}

fn filter_blocks_exec(bs: Vec<ContentBlock>, fam: &str) -> (r: Vec<ContentBlock>)
    ensures
        r.deep_view() == filter_blocks(bs.deep_view(), fam@),
{
    let ghost orig = bs.deep_view();
    let mut rest = bs;
    let mut out: Vec<ContentBlock> = Vec::new();
    let ghost consumed: int = 0;
    proof {
        assert(orig.take(0) =~= Seq::<ContentBlockV>::empty());
    }
    while rest.len() > 0
        invariant
            0 <= consumed <= orig.len(),
            rest.deep_view().len() == orig.len() - consumed,
            forall|k: int| 0 <= k < rest.deep_view().len() ==> rest.deep_view()[k] == orig[
                consumed + k
            ],
            out.deep_view() == filter_blocks(orig.take(consumed), fam@),
        decreases rest.len(),
    {
        let ghost out0 = out.deep_view();
        let ghost rest0 = rest.deep_view();
        let b = rest.remove(0);
        proof {
            assert(rest.deep_view() =~= rest0.skip(1));
            assert(b.deep_view() == rest0[0]);
            assert(b.deep_view() == orig[consumed]);
            assert(orig.take(consumed + 1).drop_last() =~= orig.take(consumed));
            assert(orig.take(consumed + 1).last() == orig[consumed]);
        }
        let keep = match &b.kind {
            BlockKind::Thinking { thinking, signature } => signature.as_str().unicode_len()
                >= MIN_SIGNATURE_LENGTH,
            BlockKind::RedactedThinking { data } => crate::strutil::str_eq(fam, "anthropic"),
            _ => true,
        };
        if keep {
            out.push(b);
            proof {
                assert(out.deep_view() =~= out0.push(orig[consumed]));
            }
        }
        proof {
            consumed = consumed + 1;
        }
    }
    proof {
        assert(orig.take(consumed) =~= orig);
    }
    out
}

/// Drops thinking blocks whose signatures the target provider family would
/// reject: missing or short signatures always, redacted thinking whenever the
/// family is not `anthropic`.
pub fn filter_invalid_thinking_blocks_with_family(msgs: &mut Vec<Message>, family: &str)
    ensures
        final(msgs).deep_view() == filter_messages(old(msgs).deep_view(), family@),
        no_short_thinking(final(msgs).deep_view()),
{
    let ghost orig = old(msgs).deep_view();
    let mut out: Vec<Message> = Vec::new();
    while msgs.len() > 0
        invariant
            out.deep_view().len() + msgs.deep_view().len() == orig.len(),
            forall|k: int| 0 <= k < out.deep_view().len() ==> out.deep_view()[k] == filter_message(
                orig[k],
                family@,
            ),
            forall|k: int| 0 <= k < msgs.deep_view().len() ==> msgs.deep_view()[k] == orig[out.deep_view().len() + k],
        decreases msgs.len(),
    {
        let ghost out0 = out.deep_view();
        let ghost rest0 = msgs.deep_view();
        let m = msgs.remove(0);
        proof {
            assert(msgs.deep_view() =~= rest0.skip(1));
            assert(m.deep_view() == rest0[0]);
            assert(m.deep_view() == orig[out0.len() as int]);
        }
        let fm = match m.content {
            MessageContent::Text(s) => Message {
                role: m.role,
                content: MessageContent::Text(s),
                cache_control: m.cache_control,
            },
            MessageContent::Blocks(bs) => Message {
                role: m.role,
                content: MessageContent::Blocks(filter_blocks_exec(bs, family)),
                cache_control: m.cache_control,
            },
        };
        out.push(fm);
        proof {
            assert(out.deep_view() =~= out0.push(filter_message(orig[out0.len() as int], family@)));
        }
    }
    *msgs = out;
    proof {
        assert(final(msgs).deep_view() =~= filter_messages(orig, family@));
        lemma_filter_no_short_thinking(orig, family@);
    }
}

proof fn lemma_filter_blocks_keep(bs: Seq<ContentBlockV>, fam: Seq<char>)
    ensures
        forall|j: int| 0 <= j < filter_blocks(bs, fam).len() ==> keep_block(
            #[trigger] filter_blocks(bs, fam)[j],
            fam,
        ),
    decreases bs.len(),
{
    if bs.len() > 0 {
        lemma_filter_blocks_keep(bs.drop_last(), fam);
        let rest = filter_blocks(bs.drop_last(), fam);
        let whole = filter_blocks(bs, fam);
        if keep_block(bs.last(), fam) {
            assert forall|j: int| 0 <= j < whole.len() implies keep_block(
                #[trigger] whole[j],
                fam,
            ) by {
                if j < whole.len() - 1 {
                    assert(whole[j] == rest[j]);
                } else {
                    assert(whole[j] == bs.last());
                }
            }
        }
    }
}

/// After filtering, no short-signature thinking block survives.
pub proof fn lemma_filter_no_short_thinking(ms: Seq<MessageV>, fam: Seq<char>)
    ensures
        no_short_thinking(filter_messages(ms, fam)),
{
    let fms = filter_messages(ms, fam);
    assert forall|i: int| 0 <= i < fms.len() implies ((#[trigger] fms[i]).content matches
        MessageContentV::Blocks(bs) ==> forall|j: int|
            0 <= j < bs.len() ==> ((#[trigger] bs[j]).kind matches BlockKindV::Thinking {
                thinking,
                signature,
            } ==> signature.len() >= MIN_SIGNATURE_LENGTH as int)) by {
        assert(fms[i] == filter_message(ms[i], fam));
        if fms[i].content is Blocks {
            let obs = ms[i].content->Blocks_0;
            lemma_filter_blocks_keep(obs, fam);
        }
    }
}

// ---------------------------------------------------------------------------
// Tool-loop closing
// ---------------------------------------------------------------------------

/// Synthetic closing text appended when an assistant turn would otherwise end
/// on an open thinking/tool chain.
pub const TOOL_LOOP_CLOSING_TEXT: &'static str = "Continuing.";

/// Whether the history's last turn is an assistant turn that holds a thinking
/// block but does not end in a plain text block.
pub open spec fn needs_tool_loop_close(ms: Seq<MessageV>) -> bool {
    &&& ms.len() > 0
    &&& ms.last().role == "assistant"@
    &&& ms.last().content matches MessageContentV::Blocks(bs)
    &&& exists|j: int| 0 <= j < bs.len() && (#[trigger] bs[j]).kind is Thinking
    &&& (bs.len() == 0 || !(bs.last().kind is Text))
}

/// The history with the synthetic closing block appended when needed.
pub open spec fn close_tool_loop(ms: Seq<MessageV>) -> Seq<MessageV> {
    if needs_tool_loop_close(ms) {
        let m = ms.last();
        let bs = m.content->Blocks_0;
        ms.update(
            ms.len() - 1,
            MessageV {
                role: m.role,
                content: MessageContentV::Blocks(
                    bs.push(
                        ContentBlockV {
                            kind: BlockKindV::Text { text: TOOL_LOOP_CLOSING_TEXT@ },
                            cache_control: None,
                        },
                    ),
                ),
                cache_control: m.cache_control,
            },
        )
    } else {
        ms
    }
}

/// When the last assistant turn carries a thinking block but does not end in
/// plain text, appends a synthetic closing text block so the upstream accepts
/// the turn.
pub fn close_tool_loop_for_thinking(msgs: &mut Vec<Message>)
    ensures
        final(msgs).deep_view() == close_tool_loop(old(msgs).deep_view()),
{
    let ghost orig = old(msgs).deep_view();
    let n = msgs.len();
    if n == 0 {
        return ;
    }
    let is_assistant = crate::strutil::str_eq(msgs[n - 1].role.as_str(), "assistant");
    if !is_assistant {
        return ;
    }
    let last = msgs.remove(n - 1);
    proof {
        assert(msgs.deep_view() =~= orig.drop_last());
        assert(last.deep_view() == orig.last());
    }
    match last.content {
        MessageContent::Text(s) => {
            let back = Message {
                role: last.role,
                content: MessageContent::Text(s),
                cache_control: last.cache_control,
            };
            msgs.push(back);
            proof {
                assert(back.deep_view() == orig.last());
                assert(final(msgs).deep_view() =~= orig);
            }
        },
        MessageContent::Blocks(bs) => {
            let bn = bs.len();
            let mut has_thinking = false;
            let mut i: usize = 0;
            while i < bn
                invariant
                    bn == bs.deep_view().len(),
                    i <= bn,
                    has_thinking == exists|j: int|
                        0 <= j < i && (#[trigger] bs.deep_view()[j]).kind is Thinking,
                decreases bn - i,
            {
                let is_th = match &bs[i].kind {
                    BlockKind::Thinking { thinking, signature } => true,
                    _ => false,
                };
                proof {
                    assert(is_th == ((#[trigger] bs.deep_view()[i as int]).kind is Thinking));
                }
                if is_th {
                    has_thinking = true;
                }
                i += 1;
            }
            let ends_in_text = bn > 0 && (match &bs[bn - 1].kind {
                BlockKind::Text { text } => true,
                _ => false,
            });
            let mut nbs = bs;
            if has_thinking && !ends_in_text {
                let ghost nbs0 = nbs.deep_view();
                nbs.push(
                    ContentBlock {
                        kind: BlockKind::Text { text: String::from_str(TOOL_LOOP_CLOSING_TEXT) },
                        cache_control: None,
                    },
                );
                proof {
                    assert(nbs.deep_view() =~= nbs0.push(
                        ContentBlockV {
                            kind: BlockKindV::Text { text: TOOL_LOOP_CLOSING_TEXT@ },
                            cache_control: None,
                        },
                    ));
                }
            }
            let back = Message {
                role: last.role,
                content: MessageContent::Blocks(nbs),
                cache_control: last.cache_control,
            };
            msgs.push(back);
            proof {
                if needs_tool_loop_close(orig) {
                    assert(final(msgs).deep_view() =~= close_tool_loop(orig));
                } else {
                    assert(back.deep_view() == orig.last());
                    assert(final(msgs).deep_view() =~= orig);
                }
            }
        },
    }
}

// ---------------------------------------------------------------------------
// The cleansing pipeline
// ---------------------------------------------------------------------------

/// The full cleansing pass: cache hints removed, adjacent same-role messages
/// merged, unusable thinking blocks dropped, and (when enabled) the tool loop
/// of the last assistant turn closed.
pub open spec fn cleansed(ms: Seq<MessageV>, fam: Seq<char>, close_loops: bool) -> Seq<MessageV> {
    let f = filter_messages(merge_messages(clean_messages(ms)), fam);
    if close_loops {
        close_tool_loop(f)
    } else {
        f
    }
}

proof fn lemma_merge_preserves_no_cache(ms: Seq<MessageV>)
    requires
        no_cache_hints(ms),
    ensures
        no_cache_hints(merge_messages(ms)),
    decreases ms.len(),
{
    if ms.len() > 0 {
        assert(no_cache_hints(ms.drop_last())) by {
            assert(forall|i: int| 0 <= i < ms.len() - 1 ==> (#[trigger] ms.drop_last()[i])
                == ms[i]);
        }
        lemma_merge_preserves_no_cache(ms.drop_last());
        let pre = merge_messages(ms.drop_last());
        let m = ms.last();
        assert(m == ms[ms.len() - 1]);
        let merged = merge_push(pre, m);
        if pre.len() > 0 && pre.last().role == m.role {
            let np = merged_pair(pre.last(), m);
            assert(np.cache_control is None);
            let abs = as_blocks(pre.last().content);
            let bbs = as_blocks(m.content);
            assert forall|j: int| 0 <= j < abs.len() + bbs.len() implies (#[trigger] (abs + bbs)[
                j
            ]).cache_control is None by {
                if j < abs.len() {
                    assert((abs + bbs)[j] == abs[j]);
                } else {
                    assert((abs + bbs)[j] == bbs[j - abs.len()]);
                }
            }
            assert forall|i: int| 0 <= i < merged.len() implies {
                &&& (#[trigger] merged[i]).cache_control is None
                &&& (merged[i].content matches MessageContentV::Blocks(bs) ==> forall|j: int|
                    0 <= j < bs.len() ==> (#[trigger] bs[j]).cache_control is None)
            } by {
                if i < merged.len() - 1 {
                    assert(merged[i] == pre[i]);
                }
            }
        } else {
            assert forall|i: int| 0 <= i < merged.len() implies {
                &&& (#[trigger] merged[i]).cache_control is None
                &&& (merged[i].content matches MessageContentV::Blocks(bs) ==> forall|j: int|
                    0 <= j < bs.len() ==> (#[trigger] bs[j]).cache_control is None)
            } by {
                if i < merged.len() - 1 {
                    assert(merged[i] == pre[i]);
                } else {
                    assert(merged[i] == m);
                }
            }
        }
    }
}

proof fn lemma_filter_blocks_subset(bs: Seq<ContentBlockV>, fam: Seq<char>)
    ensures
        forall|j: int| 0 <= j < filter_blocks(bs, fam).len() ==> exists|k: int|
            0 <= k < bs.len() && #[trigger] filter_blocks(bs, fam)[j] == bs[k],
    decreases bs.len(),
{
    if bs.len() > 0 {
        lemma_filter_blocks_subset(bs.drop_last(), fam);
        let rest = filter_blocks(bs.drop_last(), fam);
        let whole = filter_blocks(bs, fam);
        assert forall|j: int| 0 <= j < whole.len() implies exists|k: int|
            0 <= k < bs.len() && #[trigger] whole[j] == bs[k] by {
            if j < rest.len() {
                assert(whole[j] == rest[j]);
                let k = choose|k: int| 0 <= k < bs.drop_last().len() && rest[j] == bs.drop_last()[
                    k
                ];
                assert(bs.drop_last()[k] == bs[k]);
                assert(whole[j] == bs[k]);
            } else {
                assert(whole[j] == bs.last());
                assert(whole[j] == bs[bs.len() - 1]);
            }
        }
    }
}

proof fn lemma_filter_preserves_no_cache(ms: Seq<MessageV>, fam: Seq<char>)
    requires
        no_cache_hints(ms),
    ensures
        no_cache_hints(filter_messages(ms, fam)),
{
    let fms = filter_messages(ms, fam);
    assert forall|i: int| 0 <= i < fms.len() implies {
        &&& (#[trigger] fms[i]).cache_control is None
        &&& (fms[i].content matches MessageContentV::Blocks(bs) ==> forall|j: int|
            0 <= j < bs.len() ==> (#[trigger] bs[j]).cache_control is None)
    } by {
        assert(fms[i] == filter_message(ms[i], fam));
        assert(ms[i].cache_control is None);
        if fms[i].content is Blocks {
            let obs = ms[i].content->Blocks_0;
            lemma_filter_blocks_subset(obs, fam);
        }
    }
}

proof fn lemma_filter_preserves_no_consecutive(ms: Seq<MessageV>, fam: Seq<char>)
    requires
        no_consecutive_same_role(ms),
    ensures
        no_consecutive_same_role(filter_messages(ms, fam)),
{
    let fms = filter_messages(ms, fam);
    assert forall|i: int| 0 <= i < fms.len() - 1 implies (#[trigger] fms[i]).role != fms[i
        + 1].role by {
        assert(fms[i] == filter_message(ms[i], fam));
        assert(fms[i + 1] == filter_message(ms[i + 1], fam));
        assert(ms[i].role != ms[i + 1].role);
    }
}

proof fn lemma_close_preserves_cleansed(ms: Seq<MessageV>)
    requires
        no_cache_hints(ms),
        no_consecutive_same_role(ms),
        no_short_thinking(ms),
    ensures
        no_cache_hints(close_tool_loop(ms)),
        no_consecutive_same_role(close_tool_loop(ms)),
        no_short_thinking(close_tool_loop(ms)),
{
    if needs_tool_loop_close(ms) {
        let cs = close_tool_loop(ms);
        let m = ms.last();
        let bs = m.content->Blocks_0;
        let nb = ContentBlockV {
            kind: BlockKindV::Text { text: TOOL_LOOP_CLOSING_TEXT@ },
            cache_control: None,
        };
        assert(ms[ms.len() - 1] == m);
        assert forall|i: int| 0 <= i < cs.len() implies {
            &&& (#[trigger] cs[i]).cache_control is None
            &&& (cs[i].content matches MessageContentV::Blocks(cbs) ==> forall|j: int|
                0 <= j < cbs.len() ==> (#[trigger] cbs[j]).cache_control is None)
            &&& (cs[i].content matches MessageContentV::Blocks(cbs) ==> forall|j: int|
                0 <= j < cbs.len() ==> ((#[trigger] cbs[j]).kind matches BlockKindV::Thinking {
                    thinking,
                    signature,
                } ==> signature.len() >= MIN_SIGNATURE_LENGTH as int))
        } by {
            if i < cs.len() - 1 {
                assert(cs[i] == ms[i]);
            } else {
                assert(cs[i].content->Blocks_0 == bs.push(nb));
                assert forall|j: int| 0 <= j < bs.push(nb).len() implies (#[trigger] bs.push(nb)[
                    j
                ]).cache_control is None && (bs.push(nb)[j].kind matches BlockKindV::Thinking {
                    thinking,
                    signature,
                } ==> signature.len() >= MIN_SIGNATURE_LENGTH as int) by {
                    if j < bs.len() {
                        assert(bs.push(nb)[j] == bs[j]);
                    }
                }
            }
        }
        assert forall|i: int| 0 <= i < cs.len() - 1 implies (#[trigger] cs[i]).role != cs[i
            + 1].role by {
            assert(cs[i].role == ms[i].role && cs[i + 1].role == ms[i + 1].role);
        }
    }
}

/// Runs the whole cleansing pass on the history, in the order the dispatcher
/// applies it: cache hints out, same-role merge, thinking filter, and, when
/// tool-loop recovery is enabled, the tool-loop close. Afterwards no two
/// adjacent messages share a role, no thinking block has a signature shorter
/// than `MIN_SIGNATURE_LENGTH`, and no cache hint survives anywhere.
pub fn cleanse_history(msgs: &mut Vec<Message>, family: &str, close_loops: bool)
    ensures
        final(msgs).deep_view() == cleansed(old(msgs).deep_view(), family@, close_loops),
        no_cache_hints(final(msgs).deep_view()),
        no_consecutive_same_role(final(msgs).deep_view()),
        no_short_thinking(final(msgs).deep_view()),
{
    let ghost orig = old(msgs).deep_view();
    clean_cache_control_from_messages(msgs);
    merge_consecutive_messages(msgs);
    proof {
        lemma_merge_preserves_no_cache(clean_messages(orig));
    }
    filter_invalid_thinking_blocks_with_family(msgs, family);
    proof {
        lemma_filter_preserves_no_cache(merge_messages(clean_messages(orig)), family@);
        lemma_filter_preserves_no_consecutive(merge_messages(clean_messages(orig)), family@);
    }
    if close_loops {
        close_tool_loop_for_thinking(msgs);
        proof {
            lemma_close_preserves_cleansed(
                filter_messages(merge_messages(clean_messages(orig)), family@),
            );
        }
    }
}

/// Idempotence of cache-hint removal: cleansing a cleansed history changes
/// nothing.
pub proof fn lemma_clean_cache_control_idempotent(ms: Seq<MessageV>)
    ensures
        clean_messages(clean_messages(ms)) == clean_messages(ms),
{
    assert forall|i: int| 0 <= i < ms.len() implies clean_message(clean_messages(ms)[i])
        == clean_messages(ms)[i] by {
        let m = ms[i];
        match m.content {
            MessageContentV::Text(_) => {},
            MessageContentV::Blocks(bs) => {
                let cbs = bs.map_values(|b: ContentBlockV| clean_block(b));
                assert(cbs.map_values(|b: ContentBlockV| clean_block(b)) =~= cbs);
            },
        }
    }
    assert(clean_messages(clean_messages(ms)) =~= clean_messages(ms));
}

} // verus!

//! The model router: user overrides, alias canonicalization, rate-limit key
//! normalization, context limits, and background-task redirection.
use vstd::prelude::*;

use crate::models::{AnthropicRequest, AnthropicRequestV, MessageContent};
use crate::strutil::{contains_seq, first_occurrence, occurs_at, remove_all, remove_all_spec,
    str_contains, str_eq, str_find};

verus! {

/// The primary provider's dated model variants fold to their base names.
/// The fold is keyed on the version markers alone (`sonnet-4-5-` dated
/// variants, any `opus-4-` version), and the base name is rebuilt from the
/// alias's own prefix, so it works for every vendor prefix the alias
/// carries.
pub open spec fn has_fold_marker(m: Seq<char>) -> bool {
    contains_seq(m, "sonnet-4-5-"@) || contains_seq(m, "opus-4-"@)
}

/// The alias with its dated variant folded: a dated sonnet keeps its prefix
/// through `sonnet-4-5`; any opus version collapses to `...opus-4-5`.
pub open spec fn folded_base(m: Seq<char>) -> Seq<char> {
    if contains_seq(m, "sonnet-4-5-"@) {
        m.take(first_occurrence(m, "sonnet-4-5"@) + 10)
    } else if contains_seq(m, "opus-4-"@) {
        m.take(first_occurrence(m, "opus-4-"@) + 7) + "5"@
    } else {
        m
    }
}

/// A routed alias with its dated variant folded to the base name. The
/// `-thinking` suffix is preserved here; only the one-shot recovery path
/// strips it. Aliases without a fold marker pass through unchanged.
pub open spec fn canonical_model(m: Seq<char>) -> Seq<char> {
    let has_thinking = contains_seq(m, "-thinking"@);
    let base = remove_all_spec(m, "-thinking"@);
    if !has_fold_marker(base) {
        m
    } else if has_thinking {
        folded_base(base) + "-thinking"@
    } else {
        folded_base(base)
    }
}

/// The alias canonicalized for the strip-thinking recovery: the `-thinking`
/// suffix removed everywhere and dated variants folded to their base names.
pub open spec fn recovery_model(m: Seq<char>) -> Seq<char> {
    folded_base(remove_all_spec(m, "-thinking"@))
}

/// Rebuilds the alias's prefix through the first occurrence of `marker`,
/// then appends `extra`.
fn fold_prefix_through(m: &str, marker: &str, extra: &str) -> (r: String)
    requires
        contains_seq(m@, marker@),
    ensures
        r@ == m@.take(first_occurrence(m@, marker@) + marker@.len() as int) + extra@,
{
    let idx = match str_find(m, marker) {
        Some(i) => i,
        None => {
            proof {
                assert(false);
            }
            0
        },
    };
    let tlen = m.unicode_len();
    let mlen = marker.unicode_len();
    proof {
        assert(idx + mlen <= tlen);
    }
    let head = m.substring_char(0, idx + mlen);
    proof {
        assert(head@ =~= m@.take(idx as int + marker@.len() as int));
    }
    String::from_str(head).concat(extra)
}

/// A dated sonnet marker contains the base marker at the same position.
proof fn lemma_dated_sonnet_contains_base(m: Seq<char>)
    requires
        contains_seq(m, "sonnet-4-5-"@),
    ensures
        contains_seq(m, "sonnet-4-5"@),
        first_occurrence(m, "sonnet-4-5"@) + 10 <= m.len(),
{
    reveal_strlit("sonnet-4-5-");
    reveal_strlit("sonnet-4-5");
    let i = choose|i: int| occurs_at(m, "sonnet-4-5-"@, i);
    assert(occurs_at(m, "sonnet-4-5"@, i)) by {
        assert forall|k: int| 0 <= k < 11 implies m[i + k] == "sonnet-4-5-"@[k] by {
            assert(#[trigger] m.subrange(i, i + 11)[k] == m[i + k]);
        }
        assert(m.subrange(i, i + 10) =~= "sonnet-4-5"@);
    }
    let j = first_occurrence(m, "sonnet-4-5"@);
    assert(occurs_at(m, "sonnet-4-5"@, j) && forall|k: int|
        0 <= k < j ==> !occurs_at(m, "sonnet-4-5"@, k)) by {
        assert(exists|x: int|
            occurs_at(m, "sonnet-4-5"@, x) && forall|k: int|
                0 <= k < x ==> !occurs_at(m, "sonnet-4-5"@, k)) by {
            least_occurrence_exists(m, "sonnet-4-5"@, i);
        }
    }
}

/// Below any occurrence there is a least one.
proof fn least_occurrence_exists(m: Seq<char>, pat: Seq<char>, i: int)
    requires
        occurs_at(m, pat, i),
    ensures
        exists|x: int|
            occurs_at(m, pat, x) && forall|k: int| 0 <= k < x ==> !occurs_at(m, pat, k),
    decreases i,
{
    if forall|k: int| 0 <= k < i ==> !occurs_at(m, pat, k) {
        assert(occurs_at(m, pat, i) && forall|k: int| 0 <= k < i ==> !occurs_at(m, pat, k));
    } else {
        let k = choose|k: int| 0 <= k < i && occurs_at(m, pat, k);
        least_occurrence_exists(m, pat, k);
    }
}

#[verifier::rlimit(30)]
fn folded_base_exec(base: String) -> (r: String)
    ensures
        r@ == folded_base(base@),
{
    if str_contains(base.as_str(), "sonnet-4-5-") {
        proof {
            lemma_dated_sonnet_contains_base(base@);
        }
        let r = fold_prefix_through(base.as_str(), "sonnet-4-5", "");
        proof {
            reveal_strlit("");
            reveal_strlit("sonnet-4-5");
            assert(r@ =~= base@.take(first_occurrence(base@, "sonnet-4-5"@) + 10));
        }
        r
    } else if str_contains(base.as_str(), "opus-4-") {
        let r = fold_prefix_through(base.as_str(), "opus-4-", "5");
        proof {
            reveal_strlit("opus-4-");
        }
        r
    } else {
        base
    }
}

/// Canonicalizes a routed alias, keeping any `-thinking` suffix.
pub fn canonicalize_model(m: &str) -> (r: String)
    ensures
        r@ == canonical_model(m@),
{
    let has_thinking = str_contains(m, "-thinking");
    let base = remove_all(m, "-thinking");
    let has_marker = str_contains(base.as_str(), "sonnet-4-5-") || str_contains(
        base.as_str(),
        "opus-4-",
    );
    if !has_marker {
        return String::from_str(m);
    }
    let folded = folded_base_exec(base);
    if has_thinking {
        folded.concat("-thinking")
    } else {
        folded
    }
}

/// Canonicalizes an alias for the strip-thinking recovery, removing the
/// `-thinking` suffix.
pub fn canonicalize_model_for_recovery(m: &str) -> (r: String)
    ensures
        r@ == recovery_model(m@),
{
    folded_base_exec(remove_all(m, "-thinking"))
}

/// The first override value whose key equals `m`, if any.
pub open spec fn override_of(overrides: Seq<(Seq<char>, Seq<char>)>, m: Seq<char>) -> Option<
    Seq<char>,
>
    decreases overrides.len(),
{
    if overrides.len() == 0 {
        None
    } else if overrides[0].0 == m {
        Some(overrides[0].1)
    } else {
        override_of(overrides.skip(1), m)
    }
}

/// The physical model a request is routed to: the user's override when one
/// matches the inbound name, else the canonicalized alias.
pub open spec fn routed_model(m: Seq<char>, overrides: Seq<(Seq<char>, Seq<char>)>) -> Seq<char> {
    match override_of(overrides, m) {
        Some(o) => o,
        None => canonical_model(m),
    }
}

/// Maps an inbound model name to the physical upstream model, applying user
/// overrides first, then alias canonicalization.
pub fn resolve_model_route(m: &str, overrides: &Vec<(String, String)>) -> (r: String)
    ensures
        r@ == routed_model(m@, overrides.deep_view()),
{
    let n = overrides.len();
    let mut i: usize = 0;
    proof {
        assert(overrides.deep_view().skip(0) =~= overrides.deep_view());
    }
    while i < n
        invariant
            n == overrides@.len(),
            i <= n,
            override_of(overrides.deep_view(), m@) == override_of(
                overrides.deep_view().skip(i as int),
                m@,
            ),
            overrides.deep_view().len() == n,
        decreases n - i,
    {
        proof {
            assert(overrides.deep_view()[i as int] == (overrides@[i as int].0@, overrides@[
                i as int
            ].1@));
        }
        if str_eq(overrides[i].0.as_str(), m) {
            let r = String::from_str(overrides[i].1.as_str());
            proof {
                assert(overrides.deep_view().skip(i as int)[0] == overrides.deep_view()[i as int]);
            }
            return r;
        }
        proof {
            assert(overrides.deep_view().skip(i as int).skip(1) =~= overrides.deep_view().skip(
                i + 1,
            ));
            assert(overrides.deep_view().skip(i as int)[0] == overrides.deep_view()[i as int]);
        }
        i += 1;
    }
    proof {
        assert(overrides.deep_view().skip(n as int) =~= Seq::<(Seq<char>, Seq<char>)>::empty());
    }
    canonicalize_model(m)
}

/// The canonical id under which rate limits for `m` are recorded: the base
/// name of a known primary-provider family (rebuilt from the alias's own
/// prefix), a gemini name with the `-thinking` suffix removed, `None` for
/// anything else.
pub open spec fn standard_id(m: Seq<char>) -> Option<Seq<char>> {
    if contains_seq(m, "sonnet-4-5"@) {
        Some(m.take(first_occurrence(m, "sonnet-4-5"@) + 10))
    } else if contains_seq(m, "opus-4-"@) {
        Some(m.take(first_occurrence(m, "opus-4-"@) + 7) + "5"@)
    } else if contains_seq(m, "haiku-4-5"@) {
        Some(m.take(first_occurrence(m, "haiku-4-5"@) + 9))
    } else if contains_seq(m, "gemini"@) {
        Some(remove_all_spec(m, "-thinking"@))
    } else {
        None
    }
}

/// Normalizes a model name to the id under which its rate limits are keyed.
pub fn normalize_to_standard_id(m: &str) -> (r: Option<String>)
    ensures
        r.deep_view() == standard_id(m@),
{
    if str_contains(m, "sonnet-4-5") {
        let r = fold_prefix_through(m, "sonnet-4-5", "");
        proof {
            reveal_strlit("");
            reveal_strlit("sonnet-4-5");
            assert(r@ =~= m@.take(first_occurrence(m@, "sonnet-4-5"@) + 10));
        }
        Some(r)
    } else if str_contains(m, "opus-4-") {
        let r = fold_prefix_through(m, "opus-4-", "5");
        proof {
            reveal_strlit("opus-4-");
        }
        Some(r)
    } else if str_contains(m, "haiku-4-5") {
        let r = fold_prefix_through(m, "haiku-4-5", "");
        proof {
            reveal_strlit("");
            reveal_strlit("haiku-4-5");
            assert(r@ =~= m@.take(first_occurrence(m@, "haiku-4-5"@) + 9));
        }
        Some(r)
    } else if str_contains(m, "gemini") {
        Some(remove_all(m, "-thinking"))
    } else {
        None
    }
}

/// The physical model behind an alias. Names are canonicalized; whether
/// they leave the primary family is the user's override decision, so no
/// renaming happens here.
pub fn map_anthropic_model_to_gemini(m: &str) -> (r: String)
    ensures
        r@ == canonical_model(m@),
{
    canonicalize_model(m)
}

/// The provider family a mapped model belongs to: `gemini` when the name says
/// so, else `anthropic`.
pub open spec fn family_of(m: Seq<char>) -> Seq<char> {
    if contains_seq(m, "gemini"@) {
        "gemini"@
    } else {
        "anthropic"@
    }
}

/// The provider family of a mapped model, for signature validation and
/// rate-limit keys.
pub fn model_family(m: &str) -> (r: String)
    ensures
        r@ == family_of(m@),
{
    if str_contains(m, "gemini") {
        String::from_str("gemini")
    } else {
        String::from_str("anthropic")
    }
}

/// Whether a model can produce thinking: image models and the lite flash
/// tier cannot.
pub open spec fn thinking_capable(m: Seq<char>) -> bool {
    !contains_seq(m, "-image"@) && !contains_seq(m, "flash-lite"@)
}

/// Tests whether the model supports thinking.
pub fn model_supports_thinking(m: &str) -> (r: bool)
    ensures
        r == thinking_capable(m@),
{
    !str_contains(m, "-image") && !str_contains(m, "flash-lite")
}

/// The context limit of a model: one million tokens for `*flash*` models,
/// two million otherwise.
pub open spec fn context_limit_of(m: Seq<char>) -> u64 {
    if contains_seq(m, "flash"@) {
        1000000u64
    } else {
        2000000u64
    }
}

/// Returns the model's context limit in tokens.
pub fn get_context_limit_for_model(m: &str) -> (r: u64)
    ensures
        r == context_limit_of(m@),
{
    if str_contains(m, "flash") {
        1000000
    } else {
        2000000
    }
}

// ---------------------------------------------------------------------------
// Background-task redirection
// ---------------------------------------------------------------------------

/// A cheap housekeeping call the proxy redirects to an inexpensive model.
#[derive(Debug, Clone, Copy, PartialEq, Eq, Structural)]
pub enum BackgroundTaskType {
    /// A conversation-title request.
    Title,
    /// A conversation-summary request.
    Summary,
}

/// Marker a title-generation probe carries.
pub const TITLE_TASK_MARKER: &'static str = "Please write a 5-10 word title";

/// Marker a summarization probe carries.
pub const SUMMARY_TASK_MARKER: &'static str = "Summarize the conversation";

/// The text a background-task probe is detected in: the system instruction
/// when present, else the first message's plain-text content.
pub open spec fn probe_text(r: AnthropicRequestV) -> Seq<char> {
    match r.system {
        Some(s) => s,
        None => {
            if r.messages.len() > 0 && r.messages[0].content is Text {
                r.messages[0].content->Text_0
            } else {
                Seq::empty()
            }
        },
    }
}

/// The detected background task of a request, if any.
pub open spec fn background_task_of(r: AnthropicRequestV) -> Option<BackgroundTaskType> {
    if contains_seq(probe_text(r), TITLE_TASK_MARKER@) {
        Some(BackgroundTaskType::Title)
    } else if contains_seq(probe_text(r), SUMMARY_TASK_MARKER@) {
        Some(BackgroundTaskType::Summary)
    } else {
        None
    }
}

/// Detects whether a request is a cheap housekeeping call (a conversation
/// title or summary probe).
pub fn detect_background_task_type(r: &AnthropicRequest) -> (t: Option<BackgroundTaskType>)
    ensures
        t == background_task_of(r.deep_view()),
{
    let probe: &str = match &r.system {
        Some(s) => s.as_str(),
        None => {
            if r.messages.len() > 0 {
                match &r.messages[0].content {
                    MessageContent::Text(s) => s.as_str(),
                    MessageContent::Blocks(_) => "",
                }
            } else {
                ""
            }
        },
    };
    proof {
        if r.deep_view().system is None && !(r.deep_view().messages.len() > 0
            && r.deep_view().messages[0].content is Text) {
            reveal_strlit("");
            assert(probe@ =~= probe_text(r.deep_view()));
        }
    }
    if str_contains(probe, TITLE_TASK_MARKER) {
        Some(BackgroundTaskType::Title)
    } else if str_contains(probe, SUMMARY_TASK_MARKER) {
        Some(BackgroundTaskType::Summary)
    } else {
        None
    }
}

/// The virtual model id a detected background task is routed to: the cheapest
/// capable physical model for its kind.
pub fn select_background_model(t: BackgroundTaskType) -> (r: String)
    ensures
        t == BackgroundTaskType::Title ==> r@ == "gemini-2.5-flash-lite"@,
        t == BackgroundTaskType::Summary ==> r@ == "gemini-2.5-flash"@,
{
    match t {
        BackgroundTaskType::Title => String::from_str("gemini-2.5-flash-lite"),
        BackgroundTaskType::Summary => String::from_str("gemini-2.5-flash"),
    }
}

} // verus!

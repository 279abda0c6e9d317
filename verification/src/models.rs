//! Data model of the proxy core: the normalized Anthropic request with its
//! message and content-block structure, the Gemini "v1internal" request
//! envelope, both response shapes, and the per-attempt token lease.
//!
//! Every executable type has a mathematical view (`deep_view`) over `Seq`,
//! `Option` and plain values; the contracts of the whole crate are stated
//! over these views.
use vstd::prelude::*;

verus! {

// ---------------------------------------------------------------------------
// Anthropic side
// ---------------------------------------------------------------------------

/// One content block of a Anthropic message, without its cache hint.
#[derive(Debug, Clone, PartialEq)]
pub enum BlockKind {
    Text { text: String },
    Image { media_type: String, data: String },
    ToolUse { id: String, name: String, input_json: String },
    ToolResult { tool_use_id: String, content: String },
    Thinking { thinking: String, signature: String },
    RedactedThinking { data: String },
}

/// Mathematical model of a `BlockKind`.
pub enum BlockKindV {
    Text { text: Seq<char> },
    Image { media_type: Seq<char>, data: Seq<char> },
    ToolUse { id: Seq<char>, name: Seq<char>, input_json: Seq<char> },
    ToolResult { tool_use_id: Seq<char>, content: Seq<char> },
    Thinking { thinking: Seq<char>, signature: Seq<char> },
    RedactedThinking { data: Seq<char> },
}

impl DeepView for BlockKind {
    type V = BlockKindV;

    open spec fn deep_view(&self) -> BlockKindV {
        match self {
            BlockKind::Text { text } => BlockKindV::Text { text: text@ },
            BlockKind::Image { media_type, data } => BlockKindV::Image {
                media_type: media_type@,
                data: data@,
            },
            BlockKind::ToolUse { id, name, input_json } => BlockKindV::ToolUse {
                id: id@,
                name: name@,
                input_json: input_json@,
            },
            BlockKind::ToolResult { tool_use_id, content } => BlockKindV::ToolResult {
                tool_use_id: tool_use_id@,
                content: content@,
            },
            BlockKind::Thinking { thinking, signature } => BlockKindV::Thinking {
                thinking: thinking@,
                signature: signature@,
            },
            BlockKind::RedactedThinking { data } => BlockKindV::RedactedThinking { data: data@ },
        }
    }
}

/// A content block together with its provider-specific cache hint, which the
/// cleansing pass removes.
#[derive(Debug, Clone, PartialEq)]
pub struct ContentBlock {
    pub kind: BlockKind,
    pub cache_control: Option<String>,
}

pub struct ContentBlockV {
    pub kind: BlockKindV,
    pub cache_control: Option<Seq<char>>,
}

impl DeepView for ContentBlock {
    type V = ContentBlockV;

    open spec fn deep_view(&self) -> ContentBlockV {
        ContentBlockV { kind: self.kind.deep_view(), cache_control: self.cache_control.deep_view() }
    }
}

/// Content of a message: a plain string or an ordered block list.
#[derive(Debug, Clone, PartialEq)]
pub enum MessageContent {
    Text(String),
    Blocks(Vec<ContentBlock>),
}

pub enum MessageContentV {
    Text(Seq<char>),
    Blocks(Seq<ContentBlockV>),
}

impl DeepView for MessageContent {
    type V = MessageContentV;

    open spec fn deep_view(&self) -> MessageContentV {
        match self {
            MessageContent::Text(s) => MessageContentV::Text(s@),
            MessageContent::Blocks(bs) => MessageContentV::Blocks(bs.deep_view()),
        }
    }
}

/// One turn of the conversation.
#[derive(Debug, Clone, PartialEq)]
pub struct Message {
    pub role: String,
    pub content: MessageContent,
    pub cache_control: Option<String>,
}

pub struct MessageV {
    pub role: Seq<char>,
    pub content: MessageContentV,
    pub cache_control: Option<Seq<char>>,
}

impl DeepView for Message {
    type V = MessageV;

    open spec fn deep_view(&self) -> MessageV {
        MessageV {
            role: self.role@,
            content: self.content.deep_view(),
            cache_control: self.cache_control.deep_view(),
        }
    }
}

/// A tool the client offers to the model.
#[derive(Debug, Clone, PartialEq)]
pub struct ToolDef {
    pub name: String,
    pub description: String,
    pub input_schema_json: String,
}

pub struct ToolDefV {
    pub name: Seq<char>,
    pub description: Seq<char>,
    pub input_schema_json: Seq<char>,
}

impl DeepView for ToolDef {
    type V = ToolDefV;

    open spec fn deep_view(&self) -> ToolDefV {
        ToolDefV {
            name: self.name@,
            description: self.description@,
            input_schema_json: self.input_schema_json@,
        }
    }
}

/// Thinking configuration of the inbound request.
#[derive(Debug, Clone, Copy, PartialEq, Eq, Structural)]
pub struct ThinkingConfig {
    pub enabled: bool,
    pub budget_tokens: u64,
}

impl DeepView for ThinkingConfig {
    type V = ThinkingConfig;

    open spec fn deep_view(&self) -> ThinkingConfig {
        *self
    }
}

/// Sampling parameters. Temperature and top-p arrive as decimal fractions on
/// the wire; the core holds them in thousandths so that all arithmetic is
/// integral.
#[derive(Debug, Clone, Copy, PartialEq, Eq, Structural)]
pub struct SamplingParams {
    pub max_tokens: Option<u64>,
    pub temperature_milli: Option<u32>,
    pub top_p_milli: Option<u32>,
    pub top_k: Option<u32>,
}

impl DeepView for SamplingParams {
    type V = SamplingParams;

    open spec fn deep_view(&self) -> SamplingParams {
        *self
    }
}

/// The normalized inbound Anthropic request.
#[derive(Debug, Clone, PartialEq)]
pub struct AnthropicRequest {
    pub model: String,
    pub stream: bool,
    pub system: Option<String>,
    pub messages: Vec<Message>,
    pub tools: Option<Vec<ToolDef>>,
    pub thinking: Option<ThinkingConfig>,
    pub sampling: SamplingParams,
    pub size: Option<String>,
    pub quality: Option<String>,
}

pub struct AnthropicRequestV {
    pub model: Seq<char>,
    pub stream: bool,
    pub system: Option<Seq<char>>,
    pub messages: Seq<MessageV>,
    pub tools: Option<Seq<ToolDefV>>,
    pub thinking: Option<ThinkingConfig>,
    pub sampling: SamplingParams,
    pub size: Option<Seq<char>>,
    pub quality: Option<Seq<char>>,
}

impl DeepView for AnthropicRequest {
    type V = AnthropicRequestV;

    open spec fn deep_view(&self) -> AnthropicRequestV {
        AnthropicRequestV {
            model: self.model@,
            stream: self.stream,
            system: self.system.deep_view(),
            messages: self.messages.deep_view(),
            tools: self.tools.deep_view(),
            thinking: self.thinking.deep_view(),
            sampling: self.sampling,
            size: self.size.deep_view(),
            quality: self.quality.deep_view(),
        }
    }
}

// ---------------------------------------------------------------------------
// Gemini side
// ---------------------------------------------------------------------------

/// One part of a Gemini content entry.
#[derive(Debug, Clone, PartialEq)]
pub enum GeminiPart {
    Text { text: String },
    Thought { text: String, signature: String },
    FunctionCall { id: String, name: String, args_json: String },
    FunctionResponse { id: String, name: String, response_json: String },
    InlineData { mime_type: String, data: String },
}

pub enum GeminiPartV {
    Text { text: Seq<char> },
    Thought { text: Seq<char>, signature: Seq<char> },
    FunctionCall { id: Seq<char>, name: Seq<char>, args_json: Seq<char> },
    FunctionResponse { id: Seq<char>, name: Seq<char>, response_json: Seq<char> },
    InlineData { mime_type: Seq<char>, data: Seq<char> },
}

impl DeepView for GeminiPart {
    type V = GeminiPartV;

    open spec fn deep_view(&self) -> GeminiPartV {
        match self {
            GeminiPart::Text { text } => GeminiPartV::Text { text: text@ },
            GeminiPart::Thought { text, signature } => GeminiPartV::Thought {
                text: text@,
                signature: signature@,
            },
            GeminiPart::FunctionCall { id, name, args_json } => GeminiPartV::FunctionCall {
                id: id@,
                name: name@,
                args_json: args_json@,
            },
            GeminiPart::FunctionResponse { id, name, response_json } => GeminiPartV::FunctionResponse {
                id: id@,
                name: name@,
                response_json: response_json@,
            },
            GeminiPart::InlineData { mime_type, data } => GeminiPartV::InlineData {
                mime_type: mime_type@,
                data: data@,
            },
        }
    }
}

/// A role together with its ordered parts.
#[derive(Debug, Clone, PartialEq)]
pub struct GeminiContent {
    pub role: String,
    pub parts: Vec<GeminiPart>,
}

pub struct GeminiContentV {
    pub role: Seq<char>,
    pub parts: Seq<GeminiPartV>,
}

impl DeepView for GeminiContent {
    type V = GeminiContentV;

    open spec fn deep_view(&self) -> GeminiContentV {
        GeminiContentV { role: self.role@, parts: self.parts.deep_view() }
    }
}

/// The image-generation configuration of the upstream body.
#[derive(Debug, Clone, PartialEq)]
pub struct ImageConfig {
    pub aspect_ratio: String,
    pub image_size: Option<String>,
}

pub struct ImageConfigV {
    pub aspect_ratio: Seq<char>,
    pub image_size: Option<Seq<char>>,
}

impl DeepView for ImageConfig {
    type V = ImageConfigV;

    open spec fn deep_view(&self) -> ImageConfigV {
        ImageConfigV {
            aspect_ratio: self.aspect_ratio@,
            image_size: self.image_size.deep_view(),
        }
    }
}

/// Generation parameters of the upstream body.
#[derive(Debug, Clone, PartialEq)]
pub struct GenerationConfig {
    pub candidate_count: Option<u32>,
    pub max_output_tokens: Option<u64>,
    pub temperature_milli: Option<u32>,
    pub top_p_milli: Option<u32>,
    pub top_k: Option<u32>,
    pub stop_sequences: Vec<String>,
    pub thinking_budget: Option<u64>,
    pub include_thoughts: bool,
    pub image_config: Option<ImageConfig>,
}

pub struct GenerationConfigV {
    pub candidate_count: Option<u32>,
    pub max_output_tokens: Option<u64>,
    pub temperature_milli: Option<u32>,
    pub top_p_milli: Option<u32>,
    pub top_k: Option<u32>,
    pub stop_sequences: Seq<Seq<char>>,
    pub thinking_budget: Option<u64>,
    pub include_thoughts: bool,
    pub image_config: Option<ImageConfigV>,
}

impl DeepView for GenerationConfig {
    type V = GenerationConfigV;

    open spec fn deep_view(&self) -> GenerationConfigV {
        GenerationConfigV {
            candidate_count: self.candidate_count,
            max_output_tokens: self.max_output_tokens,
            temperature_milli: self.temperature_milli,
            top_p_milli: self.top_p_milli,
            top_k: self.top_k,
            stop_sequences: self.stop_sequences.deep_view(),
            thinking_budget: self.thinking_budget,
            include_thoughts: self.include_thoughts,
            image_config: match self.image_config {
                Some(ic) => Some(ic.deep_view()),
                None => None,
            },
        }
    }
}

/// One harm category with its threshold.
#[derive(Debug, Clone, PartialEq)]
pub struct SafetySetting {
    pub category: String,
    pub threshold: String,
}

pub struct SafetySettingV {
    pub category: Seq<char>,
    pub threshold: Seq<char>,
}

impl DeepView for SafetySetting {
    type V = SafetySettingV;

    open spec fn deep_view(&self) -> SafetySettingV {
        SafetySettingV { category: self.category@, threshold: self.threshold@ }
    }
}

/// The translated request inside the upstream envelope.
#[derive(Debug, Clone, PartialEq)]
pub struct GeminiRequestBody {
    pub system_instruction: Option<String>,
    pub contents: Vec<GeminiContent>,
    pub tools: Vec<ToolDef>,
    pub generation_config: GenerationConfig,
    pub safety_settings: Vec<SafetySetting>,
}

pub struct GeminiRequestBodyV {
    pub system_instruction: Option<Seq<char>>,
    pub contents: Seq<GeminiContentV>,
    pub tools: Seq<ToolDefV>,
    pub generation_config: GenerationConfigV,
    pub safety_settings: Seq<SafetySettingV>,
}

impl DeepView for GeminiRequestBody {
    type V = GeminiRequestBodyV;

    open spec fn deep_view(&self) -> GeminiRequestBodyV {
        GeminiRequestBodyV {
            system_instruction: self.system_instruction.deep_view(),
            contents: self.contents.deep_view(),
            tools: self.tools.deep_view(),
            generation_config: self.generation_config.deep_view(),
            safety_settings: self.safety_settings.deep_view(),
        }
    }
}

/// The full upstream envelope.
#[derive(Debug, Clone, PartialEq)]
pub struct GeminiEnvelope {
    pub project: String,
    pub request_id: String,
    pub model: String,
    pub user_agent: String,
    pub request_type: String,
    pub request: GeminiRequestBody,
}

pub struct GeminiEnvelopeV {
    pub project: Seq<char>,
    pub request_id: Seq<char>,
    pub model: Seq<char>,
    pub user_agent: Seq<char>,
    pub request_type: Seq<char>,
    pub request: GeminiRequestBodyV,
}

impl DeepView for GeminiEnvelope {
    type V = GeminiEnvelopeV;

    open spec fn deep_view(&self) -> GeminiEnvelopeV {
        GeminiEnvelopeV {
            project: self.project@,
            request_id: self.request_id@,
            model: self.model@,
            user_agent: self.user_agent@,
            request_type: self.request_type@,
            request: self.request.deep_view(),
        }
    }
}

/// Token counts as the upstream reports them.
#[derive(Debug, Clone, Copy, PartialEq, Eq, Structural)]
pub struct GeminiUsage {
    pub prompt_tokens: u64,
    pub candidates_tokens: u64,
    pub cached_tokens: Option<u64>,
}

impl DeepView for GeminiUsage {
    type V = GeminiUsage;

    open spec fn deep_view(&self) -> GeminiUsage {
        *self
    }
}

/// One candidate of the upstream response.
#[derive(Debug, Clone, PartialEq)]
pub struct GeminiCandidate {
    pub content: GeminiContent,
    pub finish_reason: Option<String>,
}

pub struct GeminiCandidateV {
    pub content: GeminiContentV,
    pub finish_reason: Option<Seq<char>>,
}

impl DeepView for GeminiCandidate {
    type V = GeminiCandidateV;

    open spec fn deep_view(&self) -> GeminiCandidateV {
        GeminiCandidateV {
            content: self.content.deep_view(),
            finish_reason: self.finish_reason.deep_view(),
        }
    }
}

/// The upstream response.
#[derive(Debug, Clone, PartialEq)]
pub struct GeminiResponse {
    pub candidates: Vec<GeminiCandidate>,
    pub usage: Option<GeminiUsage>,
}

pub struct GeminiResponseV {
    pub candidates: Seq<GeminiCandidateV>,
    pub usage: Option<GeminiUsage>,
}

impl DeepView for GeminiResponse {
    type V = GeminiResponseV;

    open spec fn deep_view(&self) -> GeminiResponseV {
        GeminiResponseV { candidates: self.candidates.deep_view(), usage: self.usage.deep_view() }
    }
}

/// Token counts as the client sees them.
#[derive(Debug, Clone, Copy, PartialEq, Eq, Structural)]
pub struct AnthropicUsage {
    pub input_tokens: u64,
    pub output_tokens: u64,
    pub cache_read_input_tokens: Option<u64>,
}

impl DeepView for AnthropicUsage {
    type V = AnthropicUsage;

    open spec fn deep_view(&self) -> AnthropicUsage {
        *self
    }
}

/// The response handed back to the client.
#[derive(Debug, Clone, PartialEq)]
pub struct AnthropicResponse {
    pub model: String,
    pub role: String,
    pub content: Vec<ContentBlock>,
    pub stop_reason: Option<String>,
    pub usage: AnthropicUsage,
}

pub struct AnthropicResponseV {
    pub model: Seq<char>,
    pub role: Seq<char>,
    pub content: Seq<ContentBlockV>,
    pub stop_reason: Option<Seq<char>>,
    pub usage: AnthropicUsage,
}

impl DeepView for AnthropicResponse {
    type V = AnthropicResponseV;

    open spec fn deep_view(&self) -> AnthropicResponseV {
        AnthropicResponseV {
            model: self.model@,
            role: self.role@,
            content: self.content.deep_view(),
            stop_reason: self.stop_reason.deep_view(),
            usage: self.usage,
        }
    }
}

// ---------------------------------------------------------------------------
// Leases
// ---------------------------------------------------------------------------

/// A per-attempt snapshot of the selected account's credentials. A lease is
/// never reused across attempts.
#[derive(Debug, Clone, PartialEq)]
pub struct TokenLease {
    pub account_id: String,
    pub email: String,
    pub access_token: String,
    pub project_id: String,
}

pub struct TokenLeaseV {
    pub account_id: Seq<char>,
    pub email: Seq<char>,
    pub access_token: Seq<char>,
    pub project_id: Seq<char>,
}

impl DeepView for TokenLease {
    type V = TokenLeaseV;

    open spec fn deep_view(&self) -> TokenLeaseV {
        TokenLeaseV {
            account_id: self.account_id@,
            email: self.email@,
            access_token: self.access_token@,
            project_id: self.project_id@,
        }
    }
}

} // verus!

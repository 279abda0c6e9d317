//! Core logic of a local multi-provider AI proxy: request cleansing and
//! translation between the Anthropic wire format and the Gemini "v1internal"
//! format, account scheduling with rate-limit bookkeeping, progressive
//! context compression, provider arbitration, and the bounded attempt loop
//! that drives an upstream dispatch.
use vstd::prelude::*;

pub mod arbiter;
pub mod calibrator;
pub mod cleanup;
pub mod context;
pub mod dispatch;
pub mod error_classifier;
pub mod images;
pub mod model_mapping;
pub mod models;
pub mod outside;
pub mod retry;
pub mod session;
pub mod sse;
pub mod sticky_config;
pub mod strutil;
pub mod token_manager;
pub mod transform;

verus! {

/// Shared User-Agent string for all upstream API requests.
pub fn user_agent() -> (s: String)
    ensures
        s@ == "antigravity/1.15.8 windows/amd64"@,
{
    String::from_str("antigravity/1.15.8 windows/amd64")
}

} // verus!

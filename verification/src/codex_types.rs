//! The upstream completions API's structured request shape.  The copy
//! that carries serialization derives lives outside the library; these
//! are the plain values the router builds and reasons about.

use vstd::prelude::*;

verus! {

/// The request body sent to the upstream responses endpoint.
#[derive(Debug)]
pub struct ResponsesApiRequest {
    pub model: String,
    pub instructions: String,
    pub input: Vec<ResponseItem>,
    pub tools: Vec<String>,
    pub tool_choice: String,
    pub parallel_tool_calls: bool,
    pub reasoning: Option<Reasoning>,
    pub store: bool,
    pub stream: bool,
    pub output_fields: Vec<String>,
    pub prompt_cache_key: Option<String>,
    pub text: Option<TextControls>,
}

/// One ordered input item: a chat message with a synthetic identifier.
#[derive(Debug, PartialEq)]
pub enum ResponseItem {
    Message { id: Option<String>, role: String, content: Vec<ContentPart> },
}

/// One part of a message's content.
#[derive(Debug, PartialEq)]
pub enum ContentPart {
    Text { text: String },
}

/// The reasoning-effort setting passed through to the upstream.
#[derive(Debug, PartialEq)]
pub struct Reasoning {
    pub effort: String,
}

/// Text output controls; nothing is configured here yet.
#[derive(Debug, PartialEq)]
pub struct TextControls {}

} // verus!

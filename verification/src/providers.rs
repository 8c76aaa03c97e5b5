//! The messages, tool calls and replies exchanged with model providers.
use vstd::prelude::*;
use crate::json::JsonValue;
use crate::text::{owned, append_str};

verus! {

/// Who wrote a chat message.
#[derive(Debug, Clone, Copy, PartialEq, Eq, Structural)]
pub enum ChatRole {
    System,
    User,
    Assistant,
    Tool,
}

/// One message of a conversation; a tool's message names the call it answers.
#[derive(Debug, Clone)]
pub struct ChatMessage {
    pub role: ChatRole,
    pub content: String,
    pub tool_call_id: Option<String>,
    pub name: Option<String>,
}

/// A model's request to run a tool.
#[derive(Debug)]
pub struct ToolCall {
    pub id: String,
    pub name: String,
    pub arguments: JsonValue,
}

/// A tool offered to a model, with the JSON schema of its arguments.
#[derive(Debug)]
pub struct ToolDefinition {
    pub name: String,
    pub description: String,
    pub parameters: JsonValue,
}

/// A model's complete reply.
#[derive(Debug)]
pub struct CompletionResponse {
    pub content: String,
    pub model: String,
    pub prompt_tokens: u32,
    pub completion_tokens: u32,
    pub total_tokens: u32,
    pub tool_calls: Vec<ToolCall>,
}

/// One event of a streamed reply.
#[derive(Debug, Clone)]
pub enum StreamEvent {
    Token { content: String },
    Error { error: String },
    Done,
}

/// A stream event as a value.
pub enum StreamEventView {
    Token(Seq<char>),
    Error(Seq<char>),
    Done,
}

impl View for StreamEvent {
    type V = StreamEventView;

    open spec fn view(&self) -> StreamEventView {
        match self {
            StreamEvent::Token { content } => StreamEventView::Token(content@),
            StreamEvent::Error { error } => StreamEventView::Error(error@),
            StreamEvent::Done => StreamEventView::Done,
        }
    }
}

/// The values of a list of stream events.
pub open spec fn events_view(events: Seq<StreamEvent>) -> Seq<StreamEventView> {
    events.map_values(|e: StreamEvent| e@)
}

/// Where a provider runs.
#[derive(Debug, Clone, Copy, PartialEq, Eq, Structural)]
pub enum ProviderType {
    Local,
    Cloud,
}

/// What a provider tells about itself.
#[derive(Debug, Clone)]
pub struct ProviderInfo {
    pub name: String,
    pub provider_type: ProviderType,
    pub models: Vec<String>,
}

/// Why a provider request failed.
#[derive(Debug)]
pub enum ProviderError {
    Network(String),
    Serialization(String),
    Api(String),
    ModelNotSupported(String),
    Unavailable,
    Unauthorized,
    Internal(String),
}

/// The message that explains `e`.
pub open spec fn provider_error_text(e: ProviderError) -> Seq<char> {
    match e {
        ProviderError::Network(m) => "Network: "@ + m@,
        ProviderError::Serialization(m) => "Serialization: "@ + m@,
        ProviderError::Api(m) => "API error: "@ + m@,
        ProviderError::ModelNotSupported(m) => "Model not supported: "@ + m@,
        ProviderError::Unavailable => "Provider unavailable"@,
        ProviderError::Unauthorized => "Unauthorized"@,
        ProviderError::Internal(m) => "Internal: "@ + m@,
    }
}

impl ProviderError {
    /// The message that explains the failure.
    pub fn message(&self) -> (r: String)
        ensures
            r@ == provider_error_text(*self),
    {
        let (mut r, m) = match self {
            ProviderError::Network(m) => (owned("Network: "), m.as_str()),
            ProviderError::Serialization(m) => (owned("Serialization: "), m.as_str()),
            ProviderError::Api(m) => (owned("API error: "), m.as_str()),
            ProviderError::ModelNotSupported(m) => (owned("Model not supported: "), m.as_str()),
            ProviderError::Unavailable => (owned("Provider unavailable"), ""),
            ProviderError::Unauthorized => (owned("Unauthorized"), ""),
            ProviderError::Internal(m) => (owned("Internal: "), m.as_str()),
        };
        append_str(&mut r, m);
        proof {
            reveal_strlit("");
        }
        assert(r@ =~= provider_error_text(*self));
        r
    }
}

} // verus!

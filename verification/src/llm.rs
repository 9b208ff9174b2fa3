//! The data model of the hosted language-model surface: the catalogue of
//! quantized models, chat messages, and the error taxonomy of that surface.
//! Delegating a chat to the hosted service is transport work and stays with
//! the host; what stands here is the pure catalogue.

use vstd::prelude::*;

verus! {

/// The quantized models the catalogue knows.
#[derive(Clone, Copy, Debug, PartialEq, Eq, Structural)]
pub enum QuantizedModel {
    Llama3_1_8B,
}

impl QuantizedModel {
    /// The display name of the model.
    pub fn display_name(&self) -> (r: &'static str)
        ensures
            r@ == "Llama 3.1 8B"@,
    {
        match self {
            QuantizedModel::Llama3_1_8B => "Llama 3.1 8B",
        }
    }

    /// A one-line description of the model.
    pub fn description(&self) -> (r: &'static str)
        ensures
            r@ == "Fast and efficient general-purpose AI for content generation and code assistance"@,
    {
        match self {
            QuantizedModel::Llama3_1_8B => "Fast and efficient general-purpose AI for content generation and code assistance",
        }
    }

    /// What the model is good at.
    pub fn capabilities(&self) -> (r: Vec<&'static str>)
        ensures
            r@.len() == 4,
            r@[0]@ == "Content Generation"@,
            r@[1]@ == "Code Assistance"@,
            r@[2]@ == "General Chat"@,
            r@[3]@ == "Fast Response Times"@,
    {
        let mut r: Vec<&'static str> = Vec::new();
        r.push("Content Generation");
        r.push("Code Assistance");
        r.push("General Chat");
        r.push("Fast Response Times");
        r
    }
}

/// Who authored a chat message.
#[derive(Clone, Copy, Debug, PartialEq, Eq, Structural)]
pub enum MessageRole {
    User,
    Assistant,
    System,
}

/// One message of a conversation.
#[derive(Clone, Debug)]
pub struct ChatMessage {
    pub role: MessageRole,
    pub content: String,
    pub timestamp: u64,
    pub model: QuantizedModel,
}

/// Why the hosted language-model surface refused an operation.
#[derive(Clone, Debug)]
pub enum LlmError {
    RateLimitExceeded { reset_time: u64 },
    ModelUnavailable { model: QuantizedModel },
    InvalidRequest { message: String },
    AuthenticationFailed,
    QuotaExceeded,
    ServiceUnavailable { retry_after: u64 },
    ContentFiltered,
    InternalError { message: String },
}

} // verus!

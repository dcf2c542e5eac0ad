//! The OpenAI-compatible request and response shapes the gateway speaks.
//!
//! Sampling knobs (temperature, top-p and the penalty fields) are carried as
//! the decimal text they arrived with: the gateway never computes with them,
//! it only writes them into the outbound payload. The serialization to and
//! from the wire lives outside the library.

use vstd::prelude::*;

verus! {

/// One chat message: a role ("user", "assistant" or "system") and its text.
pub struct Message {
    pub role: String,
    pub content: String,
}

/// An inbound chat-completion request.
pub struct ChatCompletionRequest {
    pub model: String,
    pub messages: Vec<Message>,
    pub max_tokens: Option<u32>,
    pub temperature: Option<String>,
    pub top_p: Option<String>,
    pub frequency_penalty: Option<String>,
    pub presence_penalty: Option<String>,
}

/// The assistant message inside a choice.
pub struct MessageResponse {
    pub role: String,
    pub content: String,
}

/// One answer choice of a completion response.
pub struct Choice {
    pub index: usize,
    pub message: MessageResponse,
    pub finish_reason: String,
}

/// The token accounting of one completion.
pub struct Usage {
    pub prompt_tokens: i64,
    pub completion_tokens: i64,
    pub total_tokens: i64,
}

/// An outbound chat-completion response.
pub struct ChatCompletionResponse {
    pub id: String,
    pub object: String,
    pub created: i64,
    pub choices: Vec<Choice>,
    pub usage: Option<Usage>,
}

} // verus!

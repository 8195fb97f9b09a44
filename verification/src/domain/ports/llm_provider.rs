//! The value types exchanged with a model provider.

use vstd::prelude::*;

use crate::domain::models::message::Message;
use crate::text::{concat2, owned};

verus! {

/// Result of probing a provider's reachability.
#[derive(Debug, Clone, Copy, PartialEq, Eq, Structural)]
pub enum ProviderStatus {
    /// The provider answered and the model is usable.
    Available,
    /// The provider could not be reached.
    Unreachable,
    /// The provider rejected the credentials.
    Unauthorized,
    /// The provider is up but the model is not installed or known.
    ModelMissing,
}

/// A completion request: the model and the conversation so far.
#[derive(Debug, PartialEq, Eq)]
pub struct CompletionRequest {
    /// The model to use.
    pub model: String,
    /// The conversation, oldest first.
    pub messages: Vec<Message>,
}

/// Copies of the messages of `v`, in order.
pub fn clone_messages(v: &Vec<Message>) -> (r: Vec<Message>)
    ensures
        r@.map_values(|m: Message| m@) == v@.map_values(|m: Message| m@),
{
    let mut r: Vec<Message> = Vec::new();
    let mut i: usize = 0;
    while i < v.len()
        invariant
            i <= v.len(),
            r@.len() == i,
            forall|j: int| 0 <= j < i ==> #[trigger] r@[j]@ == v@[j]@,
        decreases v.len() - i,
    {
        r.push(v[i].clone());
        i = i + 1;
    }
    assert(r@.map_values(|m: Message| m@) =~= v@.map_values(|m: Message| m@));
    r
}

impl Clone for CompletionRequest {
    fn clone(&self) -> (r: Self)
        ensures
            r.model@ == self.model@,
            r.messages@.map_values(|m: Message| m@) == self.messages@.map_values(|m: Message| m@),
    {
        CompletionRequest { model: self.model.clone(), messages: clone_messages(&self.messages) }
    }
}

/// Token accounting reported by a provider.
#[derive(Debug, Clone, Copy, PartialEq, Eq, Structural)]
pub struct TokenUsage {
    /// Tokens in the prompt.
    pub prompt_tokens: u64,
    /// Tokens in the completion.
    pub completion_tokens: u64,
}

/// A provider's reply.
#[derive(Debug, PartialEq, Eq)]
pub struct CompletionResponse {
    /// The generated text.
    pub content: String,
    /// Token usage, when the provider reports it.
    pub usage: Option<TokenUsage>,
}

/// Errors a provider can report.
#[derive(Debug, PartialEq, Eq)]
pub enum LlmError {
    Unreachable(String),
    Unauthorized,
    ModelMissing(String),
    InvalidResponse(String),
}

/// The message of a provider error.
pub open spec fn llm_error_text(e: LlmError) -> Seq<char> {
    match e {
        LlmError::Unreachable(m) => "provider unreachable: "@ + m@,
        LlmError::Unauthorized => "provider unauthorized"@,
        LlmError::ModelMissing(m) => "model not available: "@ + m@,
        LlmError::InvalidResponse(m) => "invalid provider response: "@ + m@,
    }
}

impl LlmError {
    /// The human-readable message of this error.
    pub fn message(&self) -> (r: String)
        ensures
            r@ == llm_error_text(*self),
    {
        match self {
            LlmError::Unreachable(m) => concat2("provider unreachable: ", m.as_str()),
            LlmError::Unauthorized => owned("provider unauthorized"),
            LlmError::ModelMissing(m) => concat2("model not available: ", m.as_str()),
            LlmError::InvalidResponse(m) => concat2("invalid provider response: ", m.as_str()),
        }
    }
}

} // verus!

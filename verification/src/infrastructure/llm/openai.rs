//! The OpenAI-compatible adapter's computations: base URL, endpoints,
//! status mapping and the chat request's messages.

use vstd::prelude::*;

use super::ollama::{role_label, role_str};
use crate::domain::models::message::{Message, MessageView};
use crate::domain::ports::llm_provider::{CompletionRequest, ProviderStatus, TokenUsage};
use crate::text::{concat2, owned, trim, trim_end_char, trim_end_char_str, trim_str};

verus! {

/// The base URL: trimmed and without trailing slashes (any `/v1` is kept).
pub open spec fn normalized_base(endpoint: Seq<char>) -> Seq<char> {
    trim_end_char(trim(endpoint), '/')
}

/// Trim trailing slashes from the base URL (keep any `/v1`; OpenAI needs it).
pub fn normalize_base(endpoint: &str) -> (r: String)
    ensures
        r@ == normalized_base(endpoint@),
{
    let trimmed = trim_str(endpoint);
    trim_end_char_str(trimmed.as_str(), '/')
}

/// The URL listing the available models.
pub fn models_url(base: &str) -> (r: String)
    ensures
        r@ == base@ + "/models"@,
{
    concat2(base, "/models")
}

/// The chat-completions URL.
pub fn chat_url(base: &str) -> (r: String)
    ensures
        r@ == base@ + "/chat/completions"@,
{
    concat2(base, "/chat/completions")
}

/// The status an HTTP code means.
pub open spec fn status_of(code: u16) -> ProviderStatus {
    if code == 200 {
        ProviderStatus::Available
    } else if code == 401 || code == 403 {
        ProviderStatus::Unauthorized
    } else if code == 404 {
        ProviderStatus::ModelMissing
    } else {
        ProviderStatus::Unreachable
    }
}

/// Map an HTTP status code to a [`ProviderStatus`].
pub fn status_from_code(code: u16) -> (r: ProviderStatus)
    ensures
        r == status_of(code),
{
    if code == 200 {
        ProviderStatus::Available
    } else if code == 401 || code == 403 {
        ProviderStatus::Unauthorized
    } else if code == 404 {
        ProviderStatus::ModelMissing
    } else {
        ProviderStatus::Unreachable
    }
}

/// The role and content of each message of a chat request, in order.
pub fn chat_messages(request: &CompletionRequest) -> (r: Vec<(String, String)>)
    ensures
        r@.len() == request.messages@.len(),
        forall|i: int|
            0 <= i < r@.len() ==> (#[trigger] r@[i]).0@ == role_label(request.messages@[i].role)
                && r@[i].1@ == request.messages@[i].content@,
{
    let mut out: Vec<(String, String)> = Vec::new();
    let mut i: usize = 0;
    while i < request.messages.len()
        invariant
            i <= request.messages@.len(),
            out@.len() == i,
            forall|j: int|
                0 <= j < i ==> (#[trigger] out@[j]).0@ == role_label(request.messages@[j].role)
                    && out@[j].1@ == request.messages@[j].content@,
        decreases request.messages.len() - i,
    {
        let m = &request.messages[i];
        out.push((owned(role_str(m.role)), m.content.clone()));
        i = i + 1;
    }
    out
}

/// Token usage from the counts of an OpenAI reply's `usage` object: both are
/// needed.
pub fn usage_from_fields(prompt_tokens: Option<u64>, completion_tokens: Option<u64>) -> (r: Option<TokenUsage>)
    ensures
        match (prompt_tokens, completion_tokens) {
            (Some(p), Some(c)) => r == Some(TokenUsage { prompt_tokens: p, completion_tokens: c }),
            _ => r is None,
        },
{
    match (prompt_tokens, completion_tokens) {
        (Some(p), Some(c)) => Some(TokenUsage { prompt_tokens: p, completion_tokens: c }),
        _ => None,
    }
}

} // verus!

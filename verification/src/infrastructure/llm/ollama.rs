//! The Ollama adapter's computations: endpoint normalisation, URLs, status
//! mapping and prompt rendering.

use vstd::prelude::*;

use crate::domain::models::message::{Message, MessageRole, MessageView};
use crate::domain::ports::llm_provider::{ProviderStatus, TokenUsage};
use crate::text::{
    chars_of, concat2, concat3, join, join_strings, owned, str_ends_with, string_from_chars, trim,
    trim_end_char, trim_end_char_str, trim_str,
};

verus! {

/// `s` without a final `/v1`, when it ends with one.
pub open spec fn without_v1(s: Seq<char>) -> Seq<char> {
    if "/v1"@.is_suffix_of(s) {
        s.subrange(0, s.len() - 3)
    } else {
        s
    }
}

/// The native API base of an Ollama endpoint: trimmed, without trailing
/// slashes, without a `/v1` suffix, and without the slashes before it.
pub open spec fn normalized_endpoint(endpoint: Seq<char>) -> Seq<char> {
    trim_end_char(without_v1(trim_end_char(trim(endpoint), '/')), '/')
}

/// Strip an OpenAI-compatible `/v1` suffix and trailing slashes so native
/// `/api/*` paths can be appended cleanly.
pub fn normalize_endpoint(endpoint: &str) -> (r: String)
    ensures
        r@ == normalized_endpoint(endpoint@),
{
    let trimmed = trim_str(endpoint);
    let no_slash = trim_end_char_str(trimmed.as_str(), '/');
    proof {
        reveal_strlit("/v1");
    }
    let base = if str_ends_with(no_slash.as_str(), "/v1") {
        let cs = chars_of(no_slash.as_str());
        string_from_chars(&cs, 0, cs.len() - 3)
    } else {
        no_slash
    };
    trim_end_char_str(base.as_str(), '/')
}

/// The URL listing the installed models.
pub fn tags_url(base: &str) -> (r: String)
    ensures
        r@ == base@ + "/api/tags"@,
{
    concat2(base, "/api/tags")
}

/// The URL generating a completion.
pub fn generate_url(base: &str) -> (r: String)
    ensures
        r@ == base@ + "/api/generate"@,
{
    concat2(base, "/api/generate")
}

/// The status a tags probe's HTTP code means.
pub open spec fn probe_status_of(code: u16) -> ProviderStatus {
    if code == 200 {
        ProviderStatus::Available
    } else if code == 401 || code == 403 {
        ProviderStatus::Unauthorized
    } else if code == 404 {
        ProviderStatus::ModelMissing
    } else {
        ProviderStatus::Unreachable
    }
}

/// Map an HTTP status code from the tags probe to a [`ProviderStatus`].
pub fn probe_status_from_code(code: u16) -> (r: ProviderStatus)
    ensures
        r == probe_status_of(code),
{
    if code == 200 {
        ProviderStatus::Available
    } else if code == 401 || code == 403 {
        ProviderStatus::Unauthorized
    } else if code == 404 {
        ProviderStatus::ModelMissing
    } else {
        ProviderStatus::Unreachable
    }
}

/// The label of a message role.
pub open spec fn role_label(r: MessageRole) -> Seq<char> {
    match r {
        MessageRole::System => "system"@,
        MessageRole::User => "user"@,
        MessageRole::Assistant => "assistant"@,
    }
}

/// The label of a message role.
pub fn role_str(role: MessageRole) -> (r: &'static str)
    ensures
        r@ == role_label(role),
{
    match role {
        MessageRole::System => "system",
        MessageRole::User => "user",
        MessageRole::Assistant => "assistant",
    }
}

/// Each message as `role: content`, one per line.
pub open spec fn prompt_of(ms: Seq<MessageView>) -> Seq<char> {
    join(ms.map_values(|m: MessageView| role_label(m.role) + ": "@ + m.content), "\n"@)
}

/// Render ordered messages into a single prompt string.
pub fn render_prompt(messages: &[Message]) -> (r: String)
    ensures
        r@ == prompt_of(messages@.map_values(|m: Message| m@)),
{
    let ghost ms = messages@.map_values(|m: Message| m@);
    let mut lines: Vec<String> = Vec::new();
    let mut i: usize = 0;
    while i < messages.len()
        invariant
            i <= messages@.len(),
            ms == messages@.map_values(|m: Message| m@),
            lines.deep_view() == ms.subrange(0, i as int).map_values(
                |m: MessageView| role_label(m.role) + ": "@ + m.content,
            ),
        decreases messages.len() - i,
    {
        let m = &messages[i];
        lines.push(concat3(role_str(m.role), ": ", m.content.as_str()));
        assert(ms.subrange(0, i + 1).map_values(|m: MessageView| role_label(m.role) + ": "@ + m.content)
            =~= ms.subrange(0, i as int).map_values(|m: MessageView| role_label(m.role) + ": "@ + m.content).push(
            role_label(messages@[i as int].role) + ": "@ + messages@[i as int].content@,
        ));
        i = i + 1;
    }
    assert(ms.subrange(0, messages@.len() as int) =~= ms);
    join_strings(&lines, "\n")
}

/// Token usage from the counts an Ollama reply reports: both counts are
/// needed.
pub fn usage_from_counts(prompt_eval_count: Option<u64>, eval_count: Option<u64>) -> (r: Option<TokenUsage>)
    ensures
        match (prompt_eval_count, eval_count) {
            (Some(p), Some(c)) => r == Some(TokenUsage { prompt_tokens: p, completion_tokens: c }),
            _ => r is None,
        },
{
    match (prompt_eval_count, eval_count) {
        (Some(p), Some(c)) => Some(TokenUsage { prompt_tokens: p, completion_tokens: c }),
        _ => None,
    }
}

} // verus!

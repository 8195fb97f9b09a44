//! The Anthropic adapter's computations: base URL, endpoints and how a
//! conversation becomes a Messages API request.

use vstd::prelude::*;

use super::gemini::system_texts;
use super::openai::{normalize_base, normalized_base};
use crate::domain::models::message::{Message, MessageRole, MessageView};
use crate::domain::ports::llm_provider::CompletionRequest;
use crate::text::{concat2, is_blank, is_blank_str, join, join_strings, owned};

verus! {

/// The default Anthropic endpoint.
pub const DEFAULT_ANTHROPIC_ENDPOINT: &'static str = "https://api.anthropic.com";

/// The base URL for an endpoint: the default endpoint when it is blank.
pub fn base_for(endpoint: &str) -> (r: String)
    ensures
        is_blank(endpoint@) ==> r@ == DEFAULT_ANTHROPIC_ENDPOINT@,
        !is_blank(endpoint@) ==> r@ == normalized_base(endpoint@),
{
    if is_blank_str(endpoint) {
        owned(DEFAULT_ANTHROPIC_ENDPOINT)
    } else {
        normalize_base(endpoint)
    }
}

/// The URL listing the available models.
pub fn models_url(base: &str) -> (r: String)
    ensures
        r@ == base@ + "/v1/models"@,
{
    concat2(base, "/v1/models")
}

/// The Messages API URL.
pub fn messages_url(base: &str) -> (r: String)
    ensures
        r@ == base@ + "/v1/messages"@,
{
    concat2(base, "/v1/messages")
}

/// The parts of an Anthropic request: the system prompt (all system
/// messages, one per line) and the conversation (role and text).
#[derive(Debug, PartialEq, Eq)]
pub struct AnthropicRequestParts {
    pub system: Option<String>,
    pub messages: Vec<(String, String)>,
}

/// The conversation turns: user messages as `user`, assistant messages as
/// `assistant`, in order.
pub open spec fn chat_turns(ms: Seq<MessageView>) -> Seq<(Seq<char>, Seq<char>)>
    decreases ms.len(),
{
    if ms.len() == 0 {
        Seq::empty()
    } else {
        let rest = chat_turns(ms.drop_last());
        match ms.last().role {
            MessageRole::System => rest,
            MessageRole::User => rest.push(("user"@, ms.last().content)),
            MessageRole::Assistant => rest.push(("assistant"@, ms.last().content)),
        }
    }
}

/// Split a conversation into an Anthropic system prompt and messages.
pub fn anthropic_request(request: &CompletionRequest) -> (r: AnthropicRequestParts)
    ensures
        ({
            let ms = request.messages@.map_values(|m: Message| m@);
            &&& r.messages@.map_values(|t: (String, String)| (t.0@, t.1@)) == chat_turns(ms)
            &&& system_texts(ms).len() == 0 ==> r.system is None
            &&& system_texts(ms).len() > 0 ==> (r.system matches Some(s) && s@ == join(
                system_texts(ms),
                "\n"@,
            ))
        }),
{
    let ghost ms = request.messages@.map_values(|m: Message| m@);
    let mut systems: Vec<String> = Vec::new();
    let mut messages: Vec<(String, String)> = Vec::new();
    let mut i: usize = 0;
    while i < request.messages.len()
        invariant
            i <= request.messages@.len(),
            ms == request.messages@.map_values(|m: Message| m@),
            systems.deep_view() == system_texts(ms.subrange(0, i as int)),
            messages@.map_values(|t: (String, String)| (t.0@, t.1@)) == chat_turns(ms.subrange(0, i as int)),
        decreases request.messages.len() - i,
    {
        proof {
            assert(ms.subrange(0, i + 1).drop_last() =~= ms.subrange(0, i as int));
            assert(ms.subrange(0, i + 1).last() == request.messages@[i as int]@);
        }
        let m = &request.messages[i];
        let ghost before = messages@.map_values(|t: (String, String)| (t.0@, t.1@));
        match m.role {
            MessageRole::System => {
                systems.push(m.content.clone());
            },
            MessageRole::User => {
                messages.push((owned("user"), m.content.clone()));
                assert(messages@.map_values(|t: (String, String)| (t.0@, t.1@)) =~= before.push(
                    ("user"@, m.content@),
                ));
            },
            MessageRole::Assistant => {
                messages.push((owned("assistant"), m.content.clone()));
                assert(messages@.map_values(|t: (String, String)| (t.0@, t.1@)) =~= before.push(
                    ("assistant"@, m.content@),
                ));
            },
        }
        i = i + 1;
    }
    assert(ms.subrange(0, request.messages@.len() as int) =~= ms);
    let system = if systems.len() == 0 {
        None
    } else {
        Some(join_strings(&systems, "\n"))
    };
    AnthropicRequestParts { system, messages }
}

} // verus!

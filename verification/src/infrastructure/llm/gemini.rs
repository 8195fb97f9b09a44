//! The Gemini adapter's computations: base URL, endpoints, status mapping,
//! usage metadata, and how a conversation becomes a Gemini request.

use vstd::prelude::*;

use super::openai::normalized_base;
use crate::domain::models::message::{Message, MessageRole, MessageView};
use crate::domain::ports::llm_provider::{CompletionRequest, ProviderStatus, TokenUsage};
use crate::text::{concat2, concat3, is_blank, is_blank_str, join, join_strings, owned, trim_end_char_str, trim_str};

verus! {

/// The default Gemini endpoint.
pub const DEFAULT_GEMINI_ENDPOINT: &'static str = "https://generativelanguage.googleapis.com";

/// Trim trailing slashes from the base URL.
pub fn normalize_base(endpoint: &str) -> (r: String)
    ensures
        r@ == normalized_base(endpoint@),
{
    let trimmed = trim_str(endpoint);
    trim_end_char_str(trimmed.as_str(), '/')
}

/// The base URL for an endpoint: the default endpoint when it is blank.
pub fn base_for(endpoint: &str) -> (r: String)
    ensures
        is_blank(endpoint@) ==> r@ == DEFAULT_GEMINI_ENDPOINT@,
        !is_blank(endpoint@) ==> r@ == normalized_base(endpoint@),
{
    if is_blank_str(endpoint) {
        owned(DEFAULT_GEMINI_ENDPOINT)
    } else {
        normalize_base(endpoint)
    }
}

/// The URL describing `model`.
pub fn model_url(base: &str, model: &str, api_key: &str) -> (r: String)
    ensures
        r@ == base@ + "/v1beta/models/"@ + model@ + "?key="@ + api_key@,
{
    let mut r = concat3(base, "/v1beta/models/", model);
    r.append("?key=");
    r.append(api_key);
    r
}

/// The URL generating content with `model`.
pub fn generate_url(base: &str, model: &str, api_key: &str) -> (r: String)
    ensures
        r@ == base@ + "/v1beta/models/"@ + model@ + ":generateContent?key="@ + api_key@,
{
    let mut r = concat3(base, "/v1beta/models/", model);
    r.append(":generateContent?key=");
    r.append(api_key);
    r
}

/// The status an HTTP code means (Gemini answers a bad key with 400).
pub open spec fn status_of(code: u16) -> ProviderStatus {
    if code == 200 {
        ProviderStatus::Available
    } else if code == 400 || code == 401 || code == 403 {
        ProviderStatus::Unauthorized
    } else if code == 404 {
        ProviderStatus::ModelMissing
    } else {
        ProviderStatus::Unreachable
    }
}

/// Map an HTTP status code to a [`ProviderStatus`].
pub fn status_from_code(code: u16) -> (r: ProviderStatus)
    ensures
        r == status_of(code),
{
    if code == 200 {
        ProviderStatus::Available
    } else if code == 400 || code == 401 || code == 403 {
        ProviderStatus::Unauthorized
    } else if code == 404 {
        ProviderStatus::ModelMissing
    } else {
        ProviderStatus::Unreachable
    }
}

/// Token counts reported by Gemini (missing counts read as zero).
#[derive(Debug, Clone, Copy, PartialEq, Eq, Structural)]
pub struct UsageMetadata {
    pub prompt_token_count: u64,
    pub candidates_token_count: u64,
}

/// The token usage of a Gemini reply.
pub fn parse_gemini_usage(meta: &UsageMetadata) -> (r: Option<TokenUsage>)
    ensures
        r == Some(
            TokenUsage {
                prompt_tokens: meta.prompt_token_count,
                completion_tokens: meta.candidates_token_count,
            },
        ),
{
    Some(
        TokenUsage {
            prompt_tokens: meta.prompt_token_count,
            completion_tokens: meta.candidates_token_count,
        },
    )
}

/// The parts of a Gemini request: the system instruction (all system
/// messages, one per line) and the conversation turns (role and text).
#[derive(Debug, PartialEq, Eq)]
pub struct GeminiRequestParts {
    pub system_instruction: Option<String>,
    pub contents: Vec<(String, String)>,
}

/// The contents of the system messages, in order.
pub open spec fn system_texts(ms: Seq<MessageView>) -> Seq<Seq<char>>
    decreases ms.len(),
{
    if ms.len() == 0 {
        Seq::empty()
    } else if ms.last().role == MessageRole::System {
        system_texts(ms.drop_last()).push(ms.last().content)
    } else {
        system_texts(ms.drop_last())
    }
}

/// The conversation turns: user messages as `user`, assistant messages as
/// `model`, in order.
pub open spec fn turns(ms: Seq<MessageView>) -> Seq<(Seq<char>, Seq<char>)>
    decreases ms.len(),
{
    if ms.len() == 0 {
        Seq::empty()
    } else {
        let rest = turns(ms.drop_last());
        match ms.last().role {
            MessageRole::System => rest,
            MessageRole::User => rest.push(("user"@, ms.last().content)),
            MessageRole::Assistant => rest.push(("model"@, ms.last().content)),
        }
    }
}

/// Split a conversation into a Gemini system instruction and turns.
pub fn gemini_request(request: &CompletionRequest) -> (r: GeminiRequestParts)
    ensures
        ({
            let ms = request.messages@.map_values(|m: Message| m@);
            &&& r.contents@.map_values(|t: (String, String)| (t.0@, t.1@)) == turns(ms)
            &&& system_texts(ms).len() == 0 ==> r.system_instruction is None
            &&& system_texts(ms).len() > 0 ==> (r.system_instruction matches Some(s) && s@ == join(
                system_texts(ms),
                "\n"@,
            ))
        }),
{
    let ghost ms = request.messages@.map_values(|m: Message| m@);
    let mut systems: Vec<String> = Vec::new();
    let mut contents: Vec<(String, String)> = Vec::new();
    let mut i: usize = 0;
    while i < request.messages.len()
        invariant
            i <= request.messages@.len(),
            ms == request.messages@.map_values(|m: Message| m@),
            systems.deep_view() == system_texts(ms.subrange(0, i as int)),
            contents@.map_values(|t: (String, String)| (t.0@, t.1@)) == turns(ms.subrange(0, i as int)),
        decreases request.messages.len() - i,
    {
        proof {
            assert(ms.subrange(0, i + 1).drop_last() =~= ms.subrange(0, i as int));
            assert(ms.subrange(0, i + 1).last() == request.messages@[i as int]@);
        }
        let m = &request.messages[i];
        let ghost before = contents@.map_values(|t: (String, String)| (t.0@, t.1@));
        match m.role {
            MessageRole::System => {
                systems.push(m.content.clone());
            },
            MessageRole::User => {
                contents.push((owned("user"), m.content.clone()));
                assert(contents@.map_values(|t: (String, String)| (t.0@, t.1@)) =~= before.push(
                    ("user"@, m.content@),
                ));
            },
            MessageRole::Assistant => {
                contents.push((owned("model"), m.content.clone()));
                assert(contents@.map_values(|t: (String, String)| (t.0@, t.1@)) =~= before.push(
                    ("model"@, m.content@),
                ));
            },
        }
        i = i + 1;
    }
    assert(ms.subrange(0, request.messages@.len() as int) =~= ms);
    let system_instruction = if systems.len() == 0 {
        None
    } else {
        Some(join_strings(&systems, "\n"))
    };
    GeminiRequestParts { system_instruction, contents }
}

} // verus!

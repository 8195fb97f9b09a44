//! Persona agents.
//!
//! A [`PersonaAgent`] holds a persona, the model it runs on and its working
//! state (inbox, memory, last reasoning, last token usage), and makes every
//! decision of the cognitive cycle: what it observes, how it reasons about
//! competence, which messages it sends to its model, and what it makes of the
//! reply. The provider call itself is made by the runtime shell, which hands
//! the reply back to [`PersonaAgent::complete_act`].

use vstd::prelude::*;

use crate::domain::models::agent_id::AgentId;
use crate::domain::models::memory::{window, ShortTermMemory};
use crate::domain::models::message::{Message, MessageRole, MessageView};
use crate::domain::models::persona::{default_catalog, default_personas, Persona, PersonaView};
use crate::domain::models::reflection::ReflectionOutput;
use crate::domain::models::thinking::ThinkingOutput;
use crate::domain::models::tool::ToolDefinition;
use crate::domain::ports::llm_provider::{clone_messages, CompletionRequest, LlmError, TokenUsage};
use crate::text::{
    byte_len, chars_of, concat2, concat3, contains_text, find_text, first_occurrence, is_blank,
    is_blank_str, join, join_strings, lemma_first_unique, lowercase, lowercase_known, occurs_at, owned,
    split_words, str_eq, string_from_chars, to_lowercase, trim, trim_str, utf8_len, words,
};

verus! {

/// How many messages an agent's short-term memory keeps.
pub const MEMORY_CAPACITY: usize = 32;

/// The constraint line of every system prompt.
pub open spec fn constraint_text() -> Seq<char> {
    "Stay within your responsibility boundary \u{2014} delegate what is outside it."@
}

/// The directed-messaging instructions of every system prompt.
pub open spec fn messaging_text() -> Seq<char> {
    "\n\n## Directed Messaging\n"@ + "To send a message to a specific agent, use:\n"@
        + "[SEND_TO agent_name]\n"@ + "Your message content here.\n"@ + "[/SEND_TO]\n"@
}

/// One tool's line in the system prompt.
pub open spec fn tool_line(t: (Seq<char>, Seq<char>, bool)) -> Seq<char> {
    "- **"@ + t.0 + "**: "@ + t.1 + " "@ + (if t.2 {
        "(requires approval)"@
    } else {
        Seq::empty()
    }) + "\n"@
}

/// The tool lines, in order.
pub open spec fn tool_lines(ts: Seq<(Seq<char>, Seq<char>, bool)>) -> Seq<char>
    decreases ts.len(),
{
    if ts.len() == 0 {
        Seq::empty()
    } else {
        tool_lines(ts.drop_last()) + tool_line(ts.last())
    }
}

/// The tool section of the system prompt.
pub open spec fn tools_text(ts: Seq<(Seq<char>, Seq<char>, bool)>) -> Seq<char> {
    "\n\n## Available Tools\n"@ + "To use a tool, include a [TOOL_CALL]...[/TOOL_CALL] block:\n\n"@
        + tool_lines(ts) + "\nExample:\n"@
        + "[TOOL_CALL]\n{\"tool\": \"read_file\", \"arguments\": {\"path\": \"src/main.rs\"}}\n[/TOOL_CALL]\n"@
}

/// The system prompt of a persona, with the tool section when it has tools.
pub open spec fn system_prompt_of(p: PersonaView, tools: Option<Seq<(Seq<char>, Seq<char>, bool)>>) -> Seq<char> {
    "You are "@ + p.id + ", "@ + p.responsibility + ".\n\nYour mandate:\n"@ + p.responsibility
        + "\n\nConstraints:\n"@ + constraint_text() + "\n\n"@ + p.system_prompt + messaging_text()
        + match tools {
        Some(ts) => tools_text(ts),
        None => Seq::empty(),
    }
}

/// The demand mentions a word of the responsibility longer than three bytes
/// (both lowercased).
pub open spec fn competent(responsibility: Seq<char>, demand: Seq<char>) -> bool {
    exists|k: int|
        0 <= k < words(lowercase(responsibility)).len() && utf8_len(
            #[trigger] words(lowercase(responsibility))[k],
        ) > 3 && contains_text(lowercase(demand), words(lowercase(responsibility))[k])
}

/// A persona is competent for a demand as soon as one word of its
/// (lowercased) responsibility longer than three bytes occurs in the
/// lowercased demand; other words need not occur. A responsibility with no
/// word longer than three bytes is competent for no demand.
pub proof fn lemma_one_shared_word_suffices(responsibility: Seq<char>, demand: Seq<char>, w: Seq<char>)
    ensures
        words(lowercase(responsibility)).contains(w) && utf8_len(w) > 3 && contains_text(lowercase(demand), w)
            ==> competent(responsibility, demand),
        competent(responsibility, demand) ==> exists|v: Seq<char>|
            words(lowercase(responsibility)).contains(v) && utf8_len(v) > 3 && #[trigger] contains_text(
                lowercase(demand),
                v,
            ),
        (forall|k: int|
            0 <= k < words(lowercase(responsibility)).len() ==> utf8_len(
                #[trigger] words(lowercase(responsibility))[k],
            ) <= 3) ==> !competent(responsibility, demand),
{
    let ws = words(lowercase(responsibility));
    if ws.contains(w) && utf8_len(w) > 3 && contains_text(lowercase(demand), w) {
        let k = choose|k: int| 0 <= k < ws.len() && ws[k] == w;
        assert(utf8_len(ws[k]) > 3);
    }
    if competent(responsibility, demand) {
        let k = choose|k: int|
            0 <= k < ws.len() && utf8_len(#[trigger] ws[k]) > 3 && contains_text(lowercase(demand), ws[k]);
        assert(ws.contains(ws[k]));
    }
}

/// The task interpretation of a persona's reasoning.
pub open spec fn interpretation_text(p: PersonaView) -> Seq<char> {
    "As "@ + p.id + ", I interpret the task through the lens of: "@ + p.responsibility
}

/// The approach of a persona's reasoning.
pub open spec fn approach_text(p: PersonaView) -> Seq<char> {
    "I will apply my expertise in '"@ + p.responsibility + "' to produce a focused contribution."@
}

/// The risk noted when a task seems outside the persona's competence.
pub open spec fn outside_risk() -> Seq<char> {
    "The task may be partially outside my primary responsibility."@
}

/// A system message with content `c`.
pub open spec fn system_message(c: Seq<char>) -> MessageView {
    MessageView { role: MessageRole::System, content: c, author: None, recipient: None }
}

/// A system message for `c` when `c` is not blank (otherwise nothing).
pub open spec fn system_if_filled(c: Seq<char>) -> Seq<MessageView> {
    if is_blank(c) {
        Seq::empty()
    } else {
        seq![system_message(c)]
    }
}

/// The remembered messages that are not in the inbox, in order.
pub open spec fn not_in(mem: Seq<MessageView>, inbox: Seq<MessageView>) -> Seq<MessageView>
    decreases mem.len(),
{
    if mem.len() == 0 {
        Seq::empty()
    } else if inbox.contains(mem.last()) {
        not_in(mem.drop_last(), inbox)
    } else {
        not_in(mem.drop_last(), inbox).push(mem.last())
    }
}

/// The conversation an agent sends to its model: its system prompt, its
/// last reasoning, remembered messages not in the inbox, then the inbox.
pub open spec fn request_messages(
    prompt: Seq<char>,
    fragment: Option<Seq<char>>,
    memory: Seq<MessageView>,
    inbox: Seq<MessageView>,
) -> Seq<MessageView> {
    system_if_filled(prompt) + match fragment {
        Some(f) => system_if_filled("[Internal Reasoning]\n"@ + f),
        None => Seq::empty(),
    } + not_in(memory, inbox) + inbox
}

/// Where a directed-send block sits in `o`: the start marker, the `]` that
/// closes its header, and the end marker.
pub open spec fn send_span(o: Seq<char>) -> Option<(int, int, int)> {
    match (first_occurrence(o, "[SEND_TO "@), first_occurrence(o, "[/SEND_TO]"@)) {
        (Some(s), Some(e)) => if e < s {
            None
        } else {
            match first_occurrence(o.subrange(s, o.len() as int), "]"@) {
                Some(h) => Some((s, s + h, e)),
                None => None,
            }
        },
        _ => None,
    }
}

/// The header of a directed-send block closes at or after its end marker:
/// the block's body cannot be cut out.
pub open spec fn send_block_malformed(o: Seq<char>) -> bool {
    match send_span(o) {
        Some((s, h, e)) => h + 1 > e,
        None => false,
    }
}

/// The recipient and content of the directed send in `o`, if there is one
/// with a non-blank recipient and content.
pub open spec fn directed_send_of(o: Seq<char>) -> Option<(Seq<char>, Seq<char>)> {
    match send_span(o) {
        Some((s, h, e)) => {
            let recipient = trim(o.subrange(s + 9, h));
            let content = trim(o.subrange(h + 1, e));
            if is_blank(recipient) || is_blank(content) {
                None
            } else {
                Some((recipient, content))
            }
        },
        None => None,
    }
}

/// The first `c` in `v` at or after `from`.
fn find_char_from(v: &Vec<char>, c: char, from: usize) -> (r: Option<usize>)
    requires
        from <= v@.len(),
    ensures
        r matches Some(i) ==> from <= i < v@.len() && v@[i as int] == c && forall|j: int|
            from <= j < i ==> v@[j] != c,
        r is None ==> forall|j: int| from <= j < v@.len() ==> v@[j] != c,
{
    let mut i = from;
    while i < v.len()
        invariant
            from <= i <= v@.len(),
            forall|j: int| from <= j < i ==> v@[j] != c,
        decreases v.len() - i,
    {
        if v[i] == c {
            return Some(i);
        }
        i = i + 1;
    }
    None
}

/// Check if the LLM output contains a directed message block, and build the
/// message from `sender` to the named recipient.
pub fn parse_directed_send(output: &str, sender: &AgentId) -> (r: Option<Message>)
    requires
        !send_block_malformed(output@),
    ensures
        match directed_send_of(output@) {
            Some((to, content)) => r matches Some(m) && m@ == (MessageView {
                role: MessageRole::Assistant,
                content,
                author: Some(sender@),
                recipient: Some(to),
            }),
            None => r is None,
        },
{
    let o = chars_of(output);
    let open = chars_of("[SEND_TO ");
    let close = chars_of("[/SEND_TO]");
    proof {
        reveal_strlit("[SEND_TO ");
        reveal_strlit("[/SEND_TO]");
        reveal_strlit("]");
    }
    let start = match find_text(&o, &open) {
        Some(s) => s,
        None => return None,
    };
    let end = match find_text(&o, &close) {
        Some(e) => e,
        None => return None,
    };
    if end < start {
        return None;
    }
    let ghost rest = o@.subrange(start as int, o@.len() as int);
    let header_end = match find_char_from(&o, ']', start) {
        Some(h) => {
            proof {
                let k = h - start;
                assert(rest.subrange(k, k + 1) =~= "]"@);
                assert forall|j: int| 0 <= j < k implies !occurs_at(rest, "]"@, j) by {
                    if occurs_at(rest, "]"@, j) {
                        assert(rest.subrange(j, j + 1)[0] == rest[j]);
                    }
                }
                lemma_first_unique(rest, "]"@, k);
            }
            h
        },
        None => {
            proof {
                assert(first_occurrence(rest, "]"@) is None) by {
                    if exists|i: int| crate::text::is_first(rest, "]"@, i) {
                        let i = choose|i: int| crate::text::is_first(rest, "]"@, i);
                        assert(rest.subrange(i, i + 1)[0] == rest[i]);
                    }
                }
            }
            return None;
        },
    };
    proof {
        assert(o@.subrange(start as int, start + 9) =~= "[SEND_TO "@);
        if header_end < start + 9 {
            assert(o@.subrange(start as int, start + 9)[header_end - start] == o@[header_end as int]);
        }
    }
    let recipient_text = string_from_chars(&o, start + 9, header_end);
    let recipient_str = trim_str(recipient_text.as_str());
    let content_text = string_from_chars(&o, header_end + 1, end);
    let content = trim_str(content_text.as_str());
    let recipient = match AgentId::new(recipient_str.as_str()) {
        Ok(id) => id,
        Err(_) => return None,
    };
    match Message::directed(sender.clone(), recipient, content.as_str()) {
        Ok(m) => Some(m),
        Err(_) => None,
    }
}

/// Whether `output` holds a directed-send block that cannot be cut out; the
/// runtime checks this before handing a reply to [`PersonaAgent::complete_act`].
pub fn is_send_block_malformed(output: &str) -> (r: bool)
    ensures
        r == send_block_malformed(output@),
{
    let o = chars_of(output);
    let open = chars_of("[SEND_TO ");
    let close = chars_of("[/SEND_TO]");
    proof {
        reveal_strlit("]");
    }
    let start = match find_text(&o, &open) {
        Some(s) => s,
        None => return false,
    };
    let end = match find_text(&o, &close) {
        Some(e) => e,
        None => return false,
    };
    if end < start {
        return false;
    }
    let ghost rest = o@.subrange(start as int, o@.len() as int);
    match find_char_from(&o, ']', start) {
        Some(h) => {
            proof {
                let k = h - start;
                assert(rest.subrange(k, k + 1) =~= "]"@);
                assert forall|j: int| 0 <= j < k implies !occurs_at(rest, "]"@, j) by {
                    if occurs_at(rest, "]"@, j) {
                        assert(rest.subrange(j, j + 1)[0] == rest[j]);
                    }
                }
                lemma_first_unique(rest, "]"@, k);
            }
            h >= end
        },
        None => {
            proof {
                assert(first_occurrence(rest, "]"@) is None) by {
                    if exists|i: int| crate::text::is_first(rest, "]"@, i) {
                        let i = choose|i: int| crate::text::is_first(rest, "]"@, i);
                        assert(rest.subrange(i, i + 1)[0] == rest[i]);
                    }
                }
            }
            false
        },
    }
}

/// Both usages fit when added field by field.
pub open spec fn usage_fits(a: Option<TokenUsage>, b: Option<TokenUsage>) -> bool {
    match (a, b) {
        (Some(x), Some(y)) => x.prompt_tokens + y.prompt_tokens <= u64::MAX && x.completion_tokens
            + y.completion_tokens <= u64::MAX,
        _ => true,
    }
}

/// The token usage of a reply and its follow-up together: their sum when
/// both report usage, otherwise whichever does.
pub open spec fn combined_usage(a: Option<TokenUsage>, b: Option<TokenUsage>) -> Option<TokenUsage> {
    match (a, b) {
        (Some(x), Some(y)) => Some(
            TokenUsage {
                prompt_tokens: (x.prompt_tokens + y.prompt_tokens) as u64,
                completion_tokens: (x.completion_tokens + y.completion_tokens) as u64,
            },
        ),
        (Some(x), None) => Some(x),
        (None, y) => y,
    }
}

/// Accumulate the token usage of a reply and its follow-up.
pub fn combine_usage(a: Option<TokenUsage>, b: Option<TokenUsage>) -> (r: Option<TokenUsage>)
    requires
        usage_fits(a, b),
    ensures
        r == combined_usage(a, b),
{
    match (a, b) {
        (Some(x), Some(y)) => Some(
            TokenUsage {
                prompt_tokens: x.prompt_tokens + y.prompt_tokens,
                completion_tokens: x.completion_tokens + y.completion_tokens,
            },
        ),
        (Some(x), None) => Some(x),
        (None, y) => y,
    }
}

/// The text an agent returns after a tool round-trip: the text around the
/// tool call, then the follow-up reply.
pub open spec fn after_tool_text(surrounding: Seq<char>, follow_up: Seq<char>) -> Seq<char> {
    if surrounding.len() == 0 {
        follow_up
    } else {
        surrounding + "\n"@ + follow_up
    }
}

/// Join the text around a tool call with the follow-up reply.
pub fn after_tool_content(surrounding: &str, follow_up: &str) -> (r: String)
    ensures
        r@ == after_tool_text(surrounding@, follow_up@),
{
    if surrounding.unicode_len() == 0 {
        owned(follow_up)
    } else {
        concat3(surrounding, "\n", follow_up)
    }
}

/// The abstract value of a tool definition in a prompt: name, description
/// and whether it needs approval.
pub open spec fn tool_view(t: ToolDefinition) -> (Seq<char>, Seq<char>, bool) {
    (t.name@, t.description@, t.requires_approval)
}

/// Whether two messages are equal.
fn same_message(a: &Message, b: &Message) -> (r: bool)
    ensures
        r == (a@ == b@),
{
    let author_eq = match (&a.author, &b.author) {
        (Some(x), Some(y)) => str_eq(x.as_str(), y.as_str()),
        (None, None) => true,
        _ => false,
    };
    let recipient_eq = match (&a.recipient, &b.recipient) {
        (Some(x), Some(y)) => str_eq(x.as_str(), y.as_str()),
        (None, None) => true,
        _ => false,
    };
    a.role == b.role && str_eq(a.content.as_str(), b.content.as_str()) && author_eq && recipient_eq
}

/// Whether `v` holds a message equal to `m`.
fn holds_message(v: &Vec<Message>, m: &Message) -> (r: bool)
    ensures
        r == v@.map_values(|x: Message| x@).contains(m@),
{
    let mut i: usize = 0;
    while i < v.len()
        invariant
            i <= v@.len(),
            forall|j: int| 0 <= j < i ==> v@[j]@ != m@,
        decreases v.len() - i,
    {
        if same_message(&v[i], m) {
            assert(v@.map_values(|x: Message| x@)[i as int] == m@);
            return true;
        }
        i = i + 1;
    }
    false
}

/// A persona bound to a model, with its working state.
#[derive(Debug)]
pub struct PersonaAgent {
    persona: Persona,
    model: String,
    inbox: Vec<Message>,
    last_thinking: Option<ThinkingOutput>,
    last_usage: Option<TokenUsage>,
    memory: ShortTermMemory,
    tools: Option<Vec<ToolDefinition>>,
}

impl PersonaAgent {
    /// The agent's persona.
    pub closed spec fn persona_view(&self) -> PersonaView {
        self.persona@
    }

    /// The model the agent runs on.
    pub closed spec fn model_name(&self) -> Seq<char> {
        self.model@
    }

    /// Messages observed and not yet acted on, oldest first.
    pub closed spec fn inbox_view(&self) -> Seq<MessageView> {
        self.inbox@.map_values(|m: Message| m@)
    }

    /// The prompt fragment of the agent's last reasoning, if it has not acted since.
    pub closed spec fn last_fragment(&self) -> Option<Seq<char>> {
        match self.last_thinking {
            Some(t) => Some(t.fragment()),
            None => None,
        }
    }

    /// The token usage of the agent's last act.
    pub closed spec fn usage(&self) -> Option<TokenUsage> {
        self.last_usage
    }

    /// The agent's remembered messages, oldest first.
    pub closed spec fn remembered(&self) -> Seq<MessageView> {
        self.memory.contents()
    }

    /// The memory's capacity.
    pub closed spec fn memory_limit(&self) -> nat {
        self.memory.limit()
    }

    /// The tools the agent may call, if any were attached.
    pub closed spec fn tool_views(&self) -> Option<Seq<(Seq<char>, Seq<char>, bool)>> {
        match self.tools {
            Some(ts) => Some(ts@.map_values(|t: ToolDefinition| tool_view(t))),
            None => None,
        }
    }

    /// Bind a persona to a model. The agent starts with an empty inbox and a
    /// memory of [`MEMORY_CAPACITY`] messages.
    pub fn new(persona: Persona, model: &str) -> (r: Self)
        ensures
            r.persona_view() == persona@,
            r.model_name() == model@,
            r.inbox_view() == Seq::<MessageView>::empty(),
            r.last_fragment() is None,
            r.usage() is None,
            r.remembered() == Seq::<MessageView>::empty(),
            r.memory_limit() == MEMORY_CAPACITY,
            r.tool_views() is None,
    {
        let r = PersonaAgent {
            persona,
            model: owned(model),
            inbox: Vec::new(),
            last_thinking: None,
            last_usage: None,
            memory: ShortTermMemory::new(MEMORY_CAPACITY),
            tools: None,
        };
        assert(r.inbox_view() =~= Seq::<MessageView>::empty());
        r
    }

    /// Attach the tools the agent may call.
    pub fn with_tools(self, tools: Vec<ToolDefinition>) -> (r: Self)
        ensures
            r.persona_view() == self.persona_view(),
            r.model_name() == self.model_name(),
            r.inbox_view() == self.inbox_view(),
            r.last_fragment() == self.last_fragment(),
            r.usage() == self.usage(),
            r.remembered() == self.remembered(),
            r.memory_limit() == self.memory_limit(),
            r.tool_views() == Some(tools@.map_values(|t: ToolDefinition| tool_view(t))),
    {
        PersonaAgent { tools: Some(tools), ..self }
    }

    /// The agent's id.
    pub fn id(&self) -> (r: &AgentId)
        ensures
            r@ == self.persona_view().id,
    {
        &self.persona.id
    }

    /// The token usage of the agent's last act.
    pub fn last_usage(&self) -> (r: Option<TokenUsage>)
        ensures
            r == self.usage(),
    {
        self.last_usage
    }

    /// Build the system prompt from the persona's identity and tools.
    pub fn system_prompt(&self) -> (r: String)
        ensures
            r@ == system_prompt_of(self.persona_view(), self.tool_views()),
    {
        let id = self.persona.id.as_str();
        let resp = self.persona.responsibility.as_str();
        let mut prompt = concat3("You are ", id, ", ");
        prompt.append(resp);
        prompt.append(".\n\nYour mandate:\n");
        prompt.append(resp);
        prompt.append("\n\nConstraints:\n");
        prompt.append("Stay within your responsibility boundary \u{2014} delegate what is outside it.");
        prompt.append("\n\n");
        prompt.append(self.persona.system_prompt.as_str());
        prompt.append("\n\n## Directed Messaging\n");
        prompt.append("To send a message to a specific agent, use:\n");
        prompt.append("[SEND_TO agent_name]\n");
        prompt.append("Your message content here.\n");
        prompt.append("[/SEND_TO]\n");
        let ghost base = prompt@;
        match &self.tools {
            Some(tools) => {
                prompt.append("\n\n## Available Tools\n");
                prompt.append("To use a tool, include a [TOOL_CALL]...[/TOOL_CALL] block:\n\n");
                let ghost head = prompt@;
                let ghost ts = tools@.map_values(|t: ToolDefinition| tool_view(t));
                let mut i: usize = 0;
                while i < tools.len()
                    invariant
                        i <= tools@.len(),
                        ts == tools@.map_values(|t: ToolDefinition| tool_view(t)),
                        prompt@ == head + tool_lines(ts.subrange(0, i as int)),
                    decreases tools.len() - i,
                {
                    let tool = &tools[i];
                    let mark = if tool.requires_approval {
                        "(requires approval)"
                    } else {
                        ""
                    };
                    proof {
                        reveal_strlit("");
                        assert(ts.subrange(0, i + 1).drop_last() =~= ts.subrange(0, i as int));
                        assert(ts.subrange(0, i + 1).last() == tool_view(*tool));
                    }
                    prompt.append("- **");
                    prompt.append(tool.name.as_str());
                    prompt.append("**: ");
                    prompt.append(tool.description.as_str());
                    prompt.append(" ");
                    prompt.append(mark);
                    prompt.append("\n");
                    i = i + 1;
                }
                proof {
                    assert(ts.subrange(0, tools@.len() as int) =~= ts);
                }
                prompt.append("\nExample:\n");
                prompt.append(
                    "[TOOL_CALL]\n{\"tool\": \"read_file\", \"arguments\": {\"path\": \"src/main.rs\"}}\n[/TOOL_CALL]\n",
                );
            },
            None => {},
        }
        prompt
    }

    /// Does the demand overlap with this persona's responsibility? A word of
    /// the lowercased responsibility longer than three bytes must appear in
    /// the lowercased demand.
    pub fn assess_competence(&self, demand: &str) -> (r: bool)
        ensures
            r == competent(self.persona_view().responsibility, demand@),
            lowercase_known(self.persona_view().responsibility),
            lowercase_known(demand@),
    {
        let responsibility_lower = to_lowercase(self.persona.responsibility.as_str());
        let demand_lower = to_lowercase(demand);
        let haystack = chars_of(demand_lower.as_str());
        let ws = split_words(responsibility_lower.as_str());
        let ghost rw = words(lowercase(self.persona_view().responsibility));
        let mut i: usize = 0;
        while i < ws.len()
            invariant
                i <= ws@.len(),
                ws.deep_view() == rw,
                rw == words(lowercase(self.persona_view().responsibility)),
                haystack@ == lowercase(demand@),
                lowercase_known(self.persona_view().responsibility),
                lowercase_known(demand@),
                forall|k: int|
                    0 <= k < i ==> !(utf8_len(#[trigger] rw[k]) > 3 && contains_text(
                        lowercase(demand@),
                        rw[k],
                    )),
            decreases ws.len() - i,
        {
            let w = ws[i].as_str();
            if byte_len(w) > 3 {
                let pat = chars_of(w);
                match find_text(&haystack, &pat) {
                    Some(j) => {
                        proof {
                            assert(rw[i as int] == w@);
                            assert(crate::text::is_first(haystack@, pat@, j as int));
                            assert(occurs_at(haystack@, pat@, j as int));
                            assert(contains_text(lowercase(demand@), rw[i as int]));
                            assert(utf8_len(rw[i as int]) > 3);
                        }
                        return true;
                    },
                    None => {},
                }
            }
            i = i + 1;
        }
        false
    }

    /// Observe incoming messages: queue them for the next act and remember them.
    pub fn observe(&mut self, input: &[Message])
        ensures
            final(self).persona_view() == old(self).persona_view(),
            final(self).model_name() == old(self).model_name(),
            final(self).last_fragment() == old(self).last_fragment(),
            final(self).usage() == old(self).usage(),
            final(self).tool_views() == old(self).tool_views(),
            final(self).memory_limit() == old(self).memory_limit(),
            final(self).inbox_view() == old(self).inbox_view() + input@.map_values(|m: Message| m@),
            final(self).remembered() == crate::domain::models::memory::record_all(
                old(self).remembered(),
                input@.map_values(|m: Message| m@),
                old(self).memory_limit(),
            ),
    {
        let ghost seen = input@.map_values(|m: Message| m@);
        let mut i: usize = 0;
        while i < input.len()
            invariant
                i <= input@.len(),
                seen == input@.map_values(|m: Message| m@),
                self.persona == old(self).persona,
                self.model == old(self).model,
                self.last_thinking == old(self).last_thinking,
                self.last_usage == old(self).last_usage,
                self.tools == old(self).tools,
                self.memory.limit() == old(self).memory_limit(),
                self.inbox_view() == old(self).inbox_view() + seen.subrange(0, i as int),
                self.remembered() == crate::domain::models::memory::record_all(
                    old(self).remembered(),
                    seen.subrange(0, i as int),
                    old(self).memory_limit(),
                ),
            decreases input.len() - i,
        {
            let ghost inbox_before = self.inbox_view();
            self.inbox.push(input[i].clone());
            self.memory.record(input[i].clone());
            proof {
                assert(self.inbox_view() =~= inbox_before.push(seen[i as int]));
                assert(seen.subrange(0, i + 1) =~= seen.subrange(0, i as int).push(seen[i as int]));
                assert(seen.subrange(0, i + 1).drop_last() =~= seen.subrange(0, i as int));
            }
            i = i + 1;
        }
        assert(seen.subrange(0, input@.len() as int) =~= seen);
    }

    /// Reason locally about the queued work: interpret it through the
    /// persona's responsibility and flag tasks outside its competence.
    pub fn think(&mut self) -> (r: ThinkingOutput)
        ensures
            final(self).persona_view() == old(self).persona_view(),
            final(self).model_name() == old(self).model_name(),
            final(self).inbox_view() == old(self).inbox_view(),
            final(self).usage() == old(self).usage(),
            final(self).remembered() == old(self).remembered(),
            final(self).memory_limit() == old(self).memory_limit(),
            final(self).tool_views() == old(self).tool_views(),
            r.task_interpretation@ == interpretation_text(old(self).persona_view()),
            r.approach@ == approach_text(old(self).persona_view()),
            r.within_competence == competent(
                old(self).persona_view().responsibility,
                join(old(self).inbox_view().map_values(|m: MessageView| m.content), " "@),
            ),
            r.risks.deep_view() == if r.within_competence {
                Seq::<Seq<char>>::empty()
            } else {
                seq![outside_risk()]
            },
            final(self).last_fragment() == Some(r.fragment()),
    {
        let mut contents: Vec<String> = Vec::new();
        let mut i: usize = 0;
        while i < self.inbox.len()
            invariant
                i <= self.inbox@.len(),
                contents.deep_view() == self.inbox_view().map_values(|m: MessageView| m.content).subrange(
                    0,
                    i as int,
                ),
            decreases self.inbox.len() - i,
        {
            let ghost before = contents.deep_view();
            contents.push(self.inbox[i].content.clone());
            assert(self.inbox_view()[i as int] == self.inbox@[i as int]@);
            assert(contents.deep_view() =~= before.push(self.inbox@[i as int].content@));
            assert(contents.deep_view() =~= self.inbox_view().map_values(|m: MessageView| m.content).subrange(
                0,
                i + 1,
            ));
            i = i + 1;
        }
        assert(self.inbox_view().map_values(|m: MessageView| m.content).subrange(0, self.inbox@.len() as int)
            =~= self.inbox_view().map_values(|m: MessageView| m.content));
        let combined = join_strings(&contents, " ");
        let within_competence = self.assess_competence(combined.as_str());
        let mut interpretation = concat3("As ", self.persona.id.as_str(), ", I interpret the task through the lens of: ");
        interpretation.append(self.persona.responsibility.as_str());
        let approach = concat3(
            "I will apply my expertise in '",
            self.persona.responsibility.as_str(),
            "' to produce a focused contribution.",
        );
        let mut risks: Vec<String> = Vec::new();
        if !within_competence {
            risks.push(owned("The task may be partially outside my primary responsibility."));
        }
        let output = ThinkingOutput {
            task_interpretation: interpretation,
            approach,
            risks,
            within_competence,
        };
        assert(output.risks.deep_view() =~= if within_competence {
            Seq::<Seq<char>>::empty()
        } else {
            seq![outside_risk()]
        });
        self.last_thinking = Some(output.clone());
        output
    }

    /// Review an output for quality concerns: very short (under 20 bytes) or
    /// very long (over 5000 bytes) replies are flagged.
    pub fn reflect(&self, output: &Message) -> (r: ReflectionOutput)
        ensures
            r.concerns.deep_view() == (if utf8_len(output@.content) < 20 {
                seq!["Response is very short \u{2014} may lack actionable detail."@]
            } else {
                Seq::empty()
            }) + (if utf8_len(output@.content) > 5000 {
                seq!["Response is very long \u{2014} may lack focus."@]
            } else {
                Seq::empty()
            }),
            r.suggestions.deep_view() == (if utf8_len(output@.content) < 20 {
                seq!["Consider elaborating with specific steps or examples."@]
            } else {
                Seq::empty()
            }) + (if utf8_len(output@.content) > 5000 {
                seq!["Consider condensing to key actionable points."@]
            } else {
                Seq::empty()
            }),
            r.satisfied == (20 <= utf8_len(output@.content) <= 5000),
    {
        let n = byte_len(output.content.as_str());
        let mut concerns: Vec<String> = Vec::new();
        let mut suggestions: Vec<String> = Vec::new();
        if n < 20 {
            concerns.push(owned("Response is very short \u{2014} may lack actionable detail."));
            suggestions.push(owned("Consider elaborating with specific steps or examples."));
        }
        if n > 5000 {
            concerns.push(owned("Response is very long \u{2014} may lack focus."));
            suggestions.push(owned("Consider condensing to key actionable points."));
        }
        let r = ReflectionOutput { satisfied: concerns.len() == 0, concerns, suggestions };
        assert(r.concerns.deep_view() =~= (if n < 20 {
            seq!["Response is very short \u{2014} may lack actionable detail."@]
        } else {
            Seq::empty()
        }) + (if n > 5000 {
            seq!["Response is very long \u{2014} may lack focus."@]
        } else {
            Seq::empty()
        }));
        assert(r.suggestions.deep_view() =~= (if n < 20 {
            seq!["Consider elaborating with specific steps or examples."@]
        } else {
            Seq::empty()
        }) + (if n > 5000 {
            seq!["Consider condensing to key actionable points."@]
        } else {
            Seq::empty()
        }));
        r
    }

    /// Restore remembered messages from a prior session transcript.
    pub fn hydrate(&mut self, messages: &[Message])
        ensures
            final(self).persona_view() == old(self).persona_view(),
            final(self).model_name() == old(self).model_name(),
            final(self).inbox_view() == old(self).inbox_view(),
            final(self).last_fragment() == old(self).last_fragment(),
            final(self).usage() == old(self).usage(),
            final(self).tool_views() == old(self).tool_views(),
            final(self).memory_limit() == old(self).memory_limit(),
            final(self).remembered() == crate::domain::models::memory::record_all(
                old(self).remembered(),
                messages@.map_values(|m: Message| m@),
                old(self).memory_limit(),
            ),
    {
        let ghost seen = messages@.map_values(|m: Message| m@);
        let mut i: usize = 0;
        while i < messages.len()
            invariant
                i <= messages@.len(),
                seen == messages@.map_values(|m: Message| m@),
                self.persona == old(self).persona,
                self.model == old(self).model,
                self.inbox == old(self).inbox,
                self.last_thinking == old(self).last_thinking,
                self.last_usage == old(self).last_usage,
                self.tools == old(self).tools,
                self.memory.limit() == old(self).memory_limit(),
                self.remembered() == crate::domain::models::memory::record_all(
                    old(self).remembered(),
                    seen.subrange(0, i as int),
                    old(self).memory_limit(),
                ),
            decreases messages.len() - i,
        {
            self.memory.record(messages[i].clone());
            proof {
                assert(seen.subrange(0, i + 1).drop_last() =~= seen.subrange(0, i as int));
            }
            i = i + 1;
        }
        assert(seen.subrange(0, messages@.len() as int) =~= seen);
    }

    /// Export the remembered messages for persistence, oldest first. Memory
    /// keeps no summary of evicted messages, so the summary is always `None`.
    pub fn export_memory(&self) -> (r: (Vec<Message>, Option<String>))
        ensures
            r.0@.map_values(|m: Message| m@) == self.remembered(),
            r.1 is None,
    {
        let held = self.memory.messages();
        let mut out: Vec<Message> = Vec::new();
        let mut i: usize = 0;
        while i < held.len()
            invariant
                i <= held@.len(),
                held@.map_values(|m: Message| m@) == self.remembered(),
                out@.len() == i,
                forall|j: int| 0 <= j < i ==> #[trigger] out@[j]@ == held@[j]@,
            decreases held.len() - i,
        {
            out.push(held[i].clone());
            i = i + 1;
        }
        assert(out@.map_values(|m: Message| m@) =~= held@.map_values(|m: Message| m@));
        (out, None)
    }

    /// Prepare the request for acting on the queued messages: `None` when the
    /// inbox is empty; otherwise the conversation for the model, after which
    /// the inbox is empty.
    pub fn prepare_request(&mut self) -> (r: Option<CompletionRequest>)
        ensures
            final(self).persona_view() == old(self).persona_view(),
            final(self).model_name() == old(self).model_name(),
            final(self).last_fragment() == old(self).last_fragment(),
            final(self).usage() == old(self).usage(),
            final(self).remembered() == old(self).remembered(),
            final(self).memory_limit() == old(self).memory_limit(),
            final(self).tool_views() == old(self).tool_views(),
            old(self).inbox_view().len() == 0 ==> r is None && final(self).inbox_view() == old(
                self,
            ).inbox_view(),
            old(self).inbox_view().len() > 0 ==> (r matches Some(req) && req.model@ == old(
                self,
            ).model_name() && req.messages@.map_values(|m: Message| m@) == request_messages(
                system_prompt_of(old(self).persona_view(), old(self).tool_views()),
                old(self).last_fragment(),
                old(self).remembered(),
                old(self).inbox_view(),
            )) && final(self).inbox_view().len() == 0,
    {
        if self.inbox.len() == 0 {
            return None;
        }
        let ghost prompt_view = system_prompt_of(self.persona_view(), self.tool_views());
        let mut messages: Vec<Message> = Vec::new();
        let prompt = self.system_prompt();
        match Message::system(prompt.as_str()) {
            Ok(sys) => messages.push(sys),
            Err(_) => {},
        }
        assert(messages@.map_values(|m: Message| m@) =~= system_if_filled(prompt_view));
        let ghost head = messages@.map_values(|m: Message| m@);
        match &self.last_thinking {
            Some(thinking) => {
                let fragment = thinking.as_prompt_fragment();
                let text = concat2("[Internal Reasoning]\n", fragment.as_str());
                match Message::system(text.as_str()) {
                    Ok(ctx) => messages.push(ctx),
                    Err(_) => {},
                }
                assert(messages@.map_values(|m: Message| m@) =~= head + system_if_filled(
                    "[Internal Reasoning]\n"@ + thinking.fragment(),
                ));
            },
            None => {
                assert(messages@.map_values(|m: Message| m@) =~= head + Seq::<MessageView>::empty());
            },
        }
        let ghost ctx = messages@.map_values(|m: Message| m@);
        let held = self.memory.messages();
        let ghost mem = self.remembered();
        let ghost inbox = self.inbox_view();
        let mut i: usize = 0;
        while i < held.len()
            invariant
                i <= held@.len(),
                held@.map_values(|m: Message| m@) == mem,
                inbox == self.inbox@.map_values(|m: Message| m@),
                messages@.map_values(|m: Message| m@) == ctx + not_in(mem.subrange(0, i as int), inbox),
            decreases held.len() - i,
        {
            proof {
                assert(mem.subrange(0, i + 1).drop_last() =~= mem.subrange(0, i as int));
                assert(mem.subrange(0, i + 1).last() == held@[i as int]@);
            }
            let ghost before = messages@.map_values(|m: Message| m@);
            if !holds_message(&self.inbox, &held[i]) {
                messages.push(held[i].clone());
                assert(messages@.map_values(|m: Message| m@) =~= before.push(held@[i as int]@));
            }
            assert(messages@.map_values(|m: Message| m@) =~= ctx + not_in(mem.subrange(0, i + 1), inbox));
            i = i + 1;
        }
        assert(mem.subrange(0, held@.len() as int) =~= mem);
        let ghost before_inbox = messages@.map_values(|m: Message| m@);
        let mut taken: Vec<Message> = Vec::new();
        std::mem::swap(&mut taken, &mut self.inbox);
        messages.append(&mut taken);
        assert(messages@.map_values(|m: Message| m@) =~= before_inbox + inbox);
        assert(self.inbox_view() =~= Seq::<MessageView>::empty());
        Some(CompletionRequest { model: self.model.clone(), messages })
    }

    /// The follow-up request after a tool call: the conversation so far, the
    /// agent's reply that asked for the tool, and the tool's result.
    pub fn follow_up_request(&self, messages: Vec<Message>, reply: &str, tool_result: &str) -> (r: Result<CompletionRequest, LlmError>)
        ensures
            is_blank(reply@) ==> (r matches Err(LlmError::InvalidResponse(m)) && m@
                == "message content must not be empty"@),
            !is_blank(reply@) ==> (r matches Ok(req) && req.model@ == self.model_name()
                && req.messages@.map_values(|m: Message| m@) == messages@.map_values(|m: Message| m@)
                + seq![MessageView {
                    role: MessageRole::Assistant,
                    content: reply@,
                    author: Some(self.persona_view().id),
                    recipient: None,
                }] + system_if_filled(tool_result@)),
    {
        let mut messages = messages;
        let ghost start = messages@.map_values(|m: Message| m@);
        match Message::assistant(self.persona.id.clone(), reply) {
            Ok(m) => messages.push(m),
            Err(e) => return Err(LlmError::InvalidResponse(e.message())),
        }
        let ghost mid = messages@.map_values(|m: Message| m@);
        match Message::system(tool_result) {
            Ok(m) => messages.push(m),
            Err(_) => {},
        }
        assert(messages@.map_values(|m: Message| m@) =~= mid + system_if_filled(tool_result@));
        assert(mid =~= start + seq![MessageView {
            role: MessageRole::Assistant,
            content: reply@,
            author: Some(self.persona_view().id),
            recipient: None,
        }]);
        Ok(CompletionRequest { model: self.model.clone(), messages })
    }

    /// Finish acting on the model's final reply: record its token usage,
    /// forget the last reasoning, and turn the reply into a message (a
    /// directed one when it holds a directed-send block).
    pub fn complete_act(&mut self, content: &str, usage: Option<TokenUsage>) -> (r: Result<Message, LlmError>)
        requires
            !send_block_malformed(content@),
        ensures
            final(self).persona_view() == old(self).persona_view(),
            final(self).model_name() == old(self).model_name(),
            final(self).inbox_view() == old(self).inbox_view(),
            final(self).remembered() == old(self).remembered(),
            final(self).memory_limit() == old(self).memory_limit(),
            final(self).tool_views() == old(self).tool_views(),
            final(self).usage() == usage,
            final(self).last_fragment() is None,
            match directed_send_of(content@) {
                Some((to, body)) => r matches Ok(m) && m@ == (MessageView {
                    role: MessageRole::Assistant,
                    content: body,
                    author: Some(old(self).persona_view().id),
                    recipient: Some(to),
                }),
                None => if is_blank(content@) {
                    r matches Err(LlmError::InvalidResponse(m)) && m@ == "message content must not be empty"@
                } else {
                    r matches Ok(m) && m@ == (MessageView {
                        role: MessageRole::Assistant,
                        content: content@,
                        author: Some(old(self).persona_view().id),
                        recipient: None,
                    })
                },
            },
    {
        self.last_usage = usage;
        self.last_thinking = None;
        match parse_directed_send(content, &self.persona.id) {
            Some(m) => return Ok(m),
            None => {},
        }
        match Message::assistant(self.persona.id.clone(), content) {
            Ok(m) => Ok(m),
            Err(e) => Err(LlmError::InvalidResponse(e.message())),
        }
    }
}

/// The operational personas of the default catalog (all but the orchestrator).
pub open spec fn operational(ps: Seq<PersonaView>) -> Seq<PersonaView>
    decreases ps.len(),
{
    if ps.len() == 0 {
        Seq::empty()
    } else if ps.last().orchestrator {
        operational(ps.drop_last())
    } else {
        operational(ps.drop_last()).push(ps.last())
    }
}

/// Bring the operational personas online, bound to `model`. The orchestrator
/// persona is excluded (it coordinates rather than fans out).
pub fn activate_default_agents(model: &str) -> (r: Vec<PersonaAgent>)
    ensures
        r@.map_values(|a: PersonaAgent| a.persona_view()) == operational(default_catalog()),
        forall|i: int| 0 <= i < r@.len() ==> (#[trigger] r@[i]).model_name() == model@ && r@[i].inbox_view().len() == 0,
{
    let personas = default_personas();
    let ghost all = personas.deep_view();
    let n = personas.len();
    let mut out: Vec<PersonaAgent> = Vec::new();
    let mut i: usize = 0;
    while i < n
        invariant
            n == all.len(),
            n == personas@.len(),
            all == personas.deep_view(),
            i <= n,
            out@.map_values(|a: PersonaAgent| a.persona_view()) == operational(all.subrange(0, i as int)),
            forall|j: int| 0 <= j < out@.len() ==> (#[trigger] out@[j]).model_name() == model@ && out@[j].inbox_view().len() == 0,
        decreases n - i,
    {
        proof {
            assert(personas@[i as int]@ == all[i as int]);
            assert(all.subrange(0, i + 1).drop_last() =~= all.subrange(0, i as int));
        }
        if !personas[i].orchestrator {
            let ghost before = out@.map_values(|a: PersonaAgent| a.persona_view());
            out.push(PersonaAgent::new(personas[i].clone(), model));
            assert(out@.map_values(|a: PersonaAgent| a.persona_view()) =~= before.push(all[i as int]));
        }
        i = i + 1;
    }
    assert(all.subrange(0, n as int) =~= all);
    out
}

} // verus!

//! Runtime observability.
//!
//! `RuntimeEvent` narrates the cognitive cycle so every collaborating agent
//! renders uniformly. `narrate` computes the structured log record of an
//! event; the application shell hands that record to its logger.

use vstd::prelude::*;

use crate::domain::models::agent_id::AgentId;
use crate::text::{decimal, fmt_u64, owned};

verus! {

/// A narrated step in an agent's cognitive cycle.
#[derive(Debug, Clone, PartialEq, Eq)]
pub enum RuntimeEvent {
    /// The agent is registering incoming work (OBSERVE).
    AgentObserving { agent: AgentId },
    /// The agent is reasoning without side effects (THINK).
    AgentThinking { agent: AgentId },
    /// The agent is producing output (ACT).
    AgentActing { agent: AgentId },
    /// The agent reflected on its output (REFLECT phase).
    AgentReflected { agent: AgentId, satisfied: bool },
    /// The agent finished acting; `produced` tells whether it emitted a message.
    AgentActed { agent: AgentId, produced: bool },
    /// The agent failed and was isolated (never silently dropped).
    AgentFailed { agent: AgentId, error: String },
    /// An agent published a message to the inter-agent bus.
    AgentPublished { agent: AgentId },
    /// An agent sent a directed message to a specific peer.
    AgentDirectedSend { sender: AgentId, recipient: AgentId },
    /// An agent wrote to the shared scratchpad.
    ScratchpadWrite { agent: AgentId, key: String },
    /// An agent's lifecycle status changed.
    AgentLifecycle { agent: AgentId, status: String },
    /// A per-agent metrics snapshot emitted after a cycle.
    AgentMetricsSnapshot {
        agent: AgentId,
        cycles: u64,
        successes: u64,
        failures: u64,
        prompt_tokens: u64,
        completion_tokens: u64,
        latency_ms: u64,
    },
}

/// The abstract value of a [`RuntimeEvent`].
pub enum EventView {
    AgentObserving(Seq<char>),
    AgentThinking(Seq<char>),
    AgentActing(Seq<char>),
    AgentReflected(Seq<char>, bool),
    AgentActed(Seq<char>, bool),
    AgentFailed(Seq<char>, Seq<char>),
    AgentPublished(Seq<char>),
    AgentDirectedSend(Seq<char>, Seq<char>),
    ScratchpadWrite(Seq<char>, Seq<char>),
    AgentLifecycle(Seq<char>, Seq<char>),
    AgentMetricsSnapshot(Seq<char>, u64, u64, u64, u64, u64, u64),
}

impl DeepView for RuntimeEvent {
    type V = EventView;

    open spec fn deep_view(&self) -> EventView {
        match self {
            RuntimeEvent::AgentObserving { agent } => EventView::AgentObserving(agent@),
            RuntimeEvent::AgentThinking { agent } => EventView::AgentThinking(agent@),
            RuntimeEvent::AgentActing { agent } => EventView::AgentActing(agent@),
            RuntimeEvent::AgentReflected { agent, satisfied } => EventView::AgentReflected(agent@, *satisfied),
            RuntimeEvent::AgentActed { agent, produced } => EventView::AgentActed(agent@, *produced),
            RuntimeEvent::AgentFailed { agent, error } => EventView::AgentFailed(agent@, error@),
            RuntimeEvent::AgentPublished { agent } => EventView::AgentPublished(agent@),
            RuntimeEvent::AgentDirectedSend { sender, recipient } => EventView::AgentDirectedSend(
                sender@,
                recipient@,
            ),
            RuntimeEvent::ScratchpadWrite { agent, key } => EventView::ScratchpadWrite(agent@, key@),
            RuntimeEvent::AgentLifecycle { agent, status } => EventView::AgentLifecycle(agent@, status@),
            RuntimeEvent::AgentMetricsSnapshot {
                agent,
                cycles,
                successes,
                failures,
                prompt_tokens,
                completion_tokens,
                latency_ms,
            } => EventView::AgentMetricsSnapshot(
                agent@,
                *cycles,
                *successes,
                *failures,
                *prompt_tokens,
                *completion_tokens,
                *latency_ms,
            ),
        }
    }
}

/// The agent an event concerns (the sender, for a directed send).
pub open spec fn event_agent(e: RuntimeEvent) -> AgentId {
    match e {
        RuntimeEvent::AgentObserving { agent } => agent,
        RuntimeEvent::AgentThinking { agent } => agent,
        RuntimeEvent::AgentActing { agent } => agent,
        RuntimeEvent::AgentReflected { agent, .. } => agent,
        RuntimeEvent::AgentActed { agent, .. } => agent,
        RuntimeEvent::AgentFailed { agent, .. } => agent,
        RuntimeEvent::AgentPublished { agent } => agent,
        RuntimeEvent::AgentDirectedSend { sender, .. } => sender,
        RuntimeEvent::ScratchpadWrite { agent, .. } => agent,
        RuntimeEvent::AgentLifecycle { agent, .. } => agent,
        RuntimeEvent::AgentMetricsSnapshot { agent, .. } => agent,
    }
}

/// The severity of a narrated event.
#[derive(Debug, Clone, Copy, PartialEq, Eq, Structural)]
pub enum NarrationLevel {
    Info,
    Error,
}

/// A structured log record: level, agent, phase, message and extra fields
/// (name and rendered value, in order).
#[derive(Debug, PartialEq, Eq)]
pub struct Narration {
    pub level: NarrationLevel,
    pub agent: String,
    pub phase: String,
    pub message: String,
    pub fields: Vec<(String, String)>,
}

/// The abstract value of a [`Narration`].
pub struct NarrationView {
    pub level: NarrationLevel,
    pub agent: Seq<char>,
    pub phase: Seq<char>,
    pub message: Seq<char>,
    pub fields: Seq<(Seq<char>, Seq<char>)>,
}

impl Narration {
    pub open spec fn view(&self) -> NarrationView {
        NarrationView {
            level: self.level,
            agent: self.agent@,
            phase: self.phase@,
            message: self.message@,
            fields: self.fields@.map_values(|f: (String, String)| (f.0@, f.1@)),
        }
    }
}

/// How a boolean field is rendered.
pub open spec fn bool_text(b: bool) -> Seq<char> {
    if b {
        "true"@
    } else {
        "false"@
    }
}

/// An informational record with the given phase, message and fields.
pub open spec fn info(agent: AgentId, phase: Seq<char>, message: Seq<char>, fields: Seq<(Seq<char>, Seq<char>)>) -> NarrationView {
    NarrationView { level: NarrationLevel::Info, agent: agent@, phase, message, fields }
}

/// The record that narrates `e`.
pub open spec fn narration_of(e: RuntimeEvent) -> NarrationView {
    match e {
        RuntimeEvent::AgentObserving { agent } => info(agent, "observe"@, "agent observing"@, seq![]),
        RuntimeEvent::AgentThinking { agent } => info(agent, "think"@, "agent thinking"@, seq![]),
        RuntimeEvent::AgentActing { agent } => info(agent, "act"@, "agent acting"@, seq![]),
        RuntimeEvent::AgentReflected { agent, satisfied } => info(
            agent,
            "reflect"@,
            "agent reflected"@,
            seq![("satisfied"@, bool_text(satisfied))],
        ),
        RuntimeEvent::AgentActed { agent, produced } => info(
            agent,
            "acted"@,
            "agent acted"@,
            seq![("produced"@, bool_text(produced))],
        ),
        RuntimeEvent::AgentFailed { agent, error } => NarrationView {
            level: NarrationLevel::Error,
            agent: agent@,
            phase: "failed"@,
            message: "agent failed"@,
            fields: seq![("error"@, error@)],
        },
        RuntimeEvent::AgentPublished { agent } => info(
            agent,
            "published"@,
            "agent published message"@,
            seq![],
        ),
        RuntimeEvent::AgentDirectedSend { sender, recipient } => info(
            sender,
            "directed_send"@,
            "agent sent directed message"@,
            seq![("recipient"@, recipient@)],
        ),
        RuntimeEvent::ScratchpadWrite { agent, key } => info(
            agent,
            "scratchpad_write"@,
            "agent wrote to scratchpad"@,
            seq![("key"@, key@)],
        ),
        RuntimeEvent::AgentLifecycle { agent, status } => info(
            agent,
            "lifecycle"@,
            "agent lifecycle event"@,
            seq![("status"@, status@)],
        ),
        RuntimeEvent::AgentMetricsSnapshot {
            agent,
            cycles,
            successes,
            failures,
            prompt_tokens,
            completion_tokens,
            latency_ms,
        } => info(
            agent,
            "metrics"@,
            "agent metrics snapshot"@,
            seq![
                ("cycles"@, decimal(cycles as nat)),
                ("successes"@, decimal(successes as nat)),
                ("failures"@, decimal(failures as nat)),
                ("prompt_tokens"@, decimal(prompt_tokens as nat)),
                ("completion_tokens"@, decimal(completion_tokens as nat)),
                ("latency_ms"@, decimal(latency_ms as nat)),
            ],
        ),
    }
}

fn field(name: &str, value: String) -> (r: (String, String))
    ensures
        r.0@ == name@,
        r.1@ == value@,
{
    (owned(name), value)
}

fn render_bool(b: bool) -> (r: String)
    ensures
        r@ == bool_text(b),
{
    if b {
        owned("true")
    } else {
        owned("false")
    }
}

fn record(
    level: NarrationLevel,
    agent: &AgentId,
    phase: &str,
    message: &str,
    fields: Vec<(String, String)>,
) -> (r: Narration)
    ensures
        r.level == level,
        r.agent@ == agent@,
        r.phase@ == phase@,
        r.message@ == message@,
        r.fields == fields,
{
    Narration {
        level,
        agent: agent.to_string(),
        phase: owned(phase),
        message: owned(message),
        fields,
    }
}

impl RuntimeEvent {
    /// The agent this event concerns.
    pub fn agent(&self) -> (r: &AgentId)
        ensures
            *r == event_agent(*self),
    {
        match self {
            RuntimeEvent::AgentObserving { agent } => agent,
            RuntimeEvent::AgentThinking { agent } => agent,
            RuntimeEvent::AgentActing { agent } => agent,
            RuntimeEvent::AgentReflected { agent, .. } => agent,
            RuntimeEvent::AgentActed { agent, .. } => agent,
            RuntimeEvent::AgentFailed { agent, .. } => agent,
            RuntimeEvent::AgentPublished { agent } => agent,
            RuntimeEvent::AgentDirectedSend { sender, .. } => sender,
            RuntimeEvent::ScratchpadWrite { agent, .. } => agent,
            RuntimeEvent::AgentLifecycle { agent, .. } => agent,
            RuntimeEvent::AgentMetricsSnapshot { agent, .. } => agent,
        }
    }

    /// The structured log record that narrates this event.
    pub fn narrate(&self) -> (r: Narration)
        ensures
            r.view() == narration_of(*self),
    {
        let info = NarrationLevel::Info;
        let mut fields: Vec<(String, String)> = Vec::new();
        let r = match self {
            RuntimeEvent::AgentObserving { agent } => record(info, agent, "observe", "agent observing", fields),
            RuntimeEvent::AgentThinking { agent } => record(info, agent, "think", "agent thinking", fields),
            RuntimeEvent::AgentActing { agent } => record(info, agent, "act", "agent acting", fields),
            RuntimeEvent::AgentReflected { agent, satisfied } => {
                fields.push(field("satisfied", render_bool(*satisfied)));
                record(info, agent, "reflect", "agent reflected", fields)
            },
            RuntimeEvent::AgentActed { agent, produced } => {
                fields.push(field("produced", render_bool(*produced)));
                record(info, agent, "acted", "agent acted", fields)
            },
            RuntimeEvent::AgentFailed { agent, error } => {
                fields.push(field("error", error.clone()));
                record(NarrationLevel::Error, agent, "failed", "agent failed", fields)
            },
            RuntimeEvent::AgentPublished { agent } => record(
                info,
                agent,
                "published",
                "agent published message",
                fields,
            ),
            RuntimeEvent::AgentDirectedSend { sender, recipient } => {
                fields.push(field("recipient", recipient.to_string()));
                record(info, sender, "directed_send", "agent sent directed message", fields)
            },
            RuntimeEvent::ScratchpadWrite { agent, key } => {
                fields.push(field("key", key.clone()));
                record(info, agent, "scratchpad_write", "agent wrote to scratchpad", fields)
            },
            RuntimeEvent::AgentLifecycle { agent, status } => {
                fields.push(field("status", status.clone()));
                record(info, agent, "lifecycle", "agent lifecycle event", fields)
            },
            RuntimeEvent::AgentMetricsSnapshot {
                agent,
                cycles,
                successes,
                failures,
                prompt_tokens,
                completion_tokens,
                latency_ms,
            } => {
                fields.push(field("cycles", fmt_u64(*cycles)));
                fields.push(field("successes", fmt_u64(*successes)));
                fields.push(field("failures", fmt_u64(*failures)));
                fields.push(field("prompt_tokens", fmt_u64(*prompt_tokens)));
                fields.push(field("completion_tokens", fmt_u64(*completion_tokens)));
                fields.push(field("latency_ms", fmt_u64(*latency_ms)));
                record(info, agent, "metrics", "agent metrics snapshot", fields)
            },
        };
        assert(r.view().fields =~= narration_of(*self).fields);
        r
    }
}

} // verus!

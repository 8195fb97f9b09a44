//! The decisions of the multi-agent runtime.
//!
//! The runtime shell runs each agent's `observe -> think -> act` cycle
//! concurrently and narrates it. This module decides what an agent observes
//! in a cycle and which events narrate the end of its cycle; the shell does
//! the waiting, the provider calls and the publishing.

use vstd::prelude::*;

use super::agent_metrics::AgentStats;
use super::agent_observability::{EventView, RuntimeEvent};
use crate::domain::models::agent_id::AgentId;
use crate::domain::models::message::{visible_to, Message, MessageRole, MessageView};
use crate::domain::models::scratchpad::Scratchpad;
use crate::text::is_blank;

verus! {

/// Lifecycle status of a registered agent.
#[derive(Debug, Clone, Copy, PartialEq, Eq, Structural)]
pub enum AgentStatus {
    Idle,
    Running,
    Terminated,
}

/// The messages of `history` that agent `id` may see, in order.
pub open spec fn visible_part(history: Seq<MessageView>, id: Seq<char>) -> Seq<MessageView>
    decreases history.len(),
{
    if history.len() == 0 {
        Seq::empty()
    } else if visible_to(history.last(), id) {
        visible_part(history.drop_last(), id).push(history.last())
    } else {
        visible_part(history.drop_last(), id)
    }
}

/// The scratchpad's context as a system message, when it has content.
pub open spec fn context_part(ctx: Option<Seq<char>>) -> Seq<MessageView> {
    match ctx {
        Some(c) => if c.len() == 0 || is_blank(c) {
            Seq::empty()
        } else {
            seq![MessageView { role: MessageRole::System, content: c, author: None, recipient: None }]
        },
        None => Seq::empty(),
    }
}

/// What an agent observes in a cycle: the bus messages visible to it, the
/// shared scratchpad as a system message (when it has content), then the
/// cycle's input.
pub fn cycle_input(history: &Vec<Message>, id: &AgentId, scratchpad: Option<&Scratchpad>, input: &Vec<Message>) -> (r: Vec<Message>)
    ensures
        r@.map_values(|m: Message| m@) == visible_part(history@.map_values(|m: Message| m@), id@)
            + context_part(
            match scratchpad {
                Some(p) => Some(p.prompt_context()),
                None => None,
            },
        ) + input@.map_values(|m: Message| m@),
{
    let ghost hv = history@.map_values(|m: Message| m@);
    let mut out: Vec<Message> = Vec::new();
    let mut i: usize = 0;
    while i < history.len()
        invariant
            i <= history@.len(),
            hv == history@.map_values(|m: Message| m@),
            out@.map_values(|m: Message| m@) == visible_part(hv.subrange(0, i as int), id@),
        decreases history.len() - i,
    {
        proof {
            assert(hv.subrange(0, i + 1).drop_last() =~= hv.subrange(0, i as int));
            assert(hv.subrange(0, i + 1).last() == history@[i as int]@);
        }
        let ghost before = out@.map_values(|m: Message| m@);
        if history[i].is_visible_to(id) {
            out.push(history[i].clone());
            assert(out@.map_values(|m: Message| m@) =~= before.push(history@[i as int]@));
        }
        i = i + 1;
    }
    assert(hv.subrange(0, history@.len() as int) =~= hv);
    let ghost visible = out@.map_values(|m: Message| m@);
    match scratchpad {
        Some(p) => {
            let ctx = p.as_prompt_context();
            if ctx.unicode_len() > 0 {
                match Message::system(ctx.as_str()) {
                    Ok(m) => out.push(m),
                    Err(_) => {},
                }
            }
        },
        None => {},
    }
    let ghost ctx_view = match scratchpad {
        Some(p) => Some(p.prompt_context()),
        None => None,
    };
    assert(out@.map_values(|m: Message| m@) =~= visible + context_part(ctx_view));
    let ghost mid = out@.map_values(|m: Message| m@);
    let mut j: usize = 0;
    while j < input.len()
        invariant
            j <= input@.len(),
            out@.map_values(|m: Message| m@) == mid + input@.map_values(|m: Message| m@).subrange(
                0,
                j as int,
            ),
        decreases input.len() - j,
    {
        let ghost before = out@.map_values(|m: Message| m@);
        out.push(input[j].clone());
        assert(out@.map_values(|m: Message| m@) =~= before.push(input@[j as int]@));
        assert(input@.map_values(|m: Message| m@).subrange(0, j + 1) =~= input@.map_values(|m: Message| m@).subrange(
            0,
            j as int,
        ).push(input@[j as int]@));
        assert(out@.map_values(|m: Message| m@) =~= mid + input@.map_values(|m: Message| m@).subrange(
            0,
            j + 1,
        ));
        j = j + 1;
    }
    assert(input@.map_values(|m: Message| m@).subrange(0, input@.len() as int) =~= input@.map_values(
        |m: Message| m@,
    ));
    out
}

/// The metrics snapshot event of an agent.
pub open spec fn snapshot_view(id: Seq<char>, s: AgentStats) -> EventView {
    EventView::AgentMetricsSnapshot(
        id,
        s.cycles,
        s.successes,
        s.failures,
        s.prompt_tokens,
        s.completion_tokens,
        (s.total_latency_ns / 1_000_000) as u64,
    )
}

/// The events that close a successful act: for a produced message, the
/// directed send (when it is one), its publication and the reflection; then
/// whether anything was produced, and the agent's metrics.
pub open spec fn success_views(id: Seq<char>, output: Option<MessageView>, satisfied: bool, s: AgentStats) -> Seq<EventView> {
    let head = match output {
        Some(m) => (match (m.author, m.recipient) {
            (Some(from), Some(to)) => seq![EventView::AgentDirectedSend(from, to)],
            _ => Seq::empty(),
        }) + seq![EventView::AgentPublished(id), EventView::AgentReflected(id, satisfied)],
        None => Seq::empty(),
    };
    head + seq![EventView::AgentActed(id, output is Some), snapshot_view(id, s)]
}

fn snapshot(id: &AgentId, s: &AgentStats) -> (r: RuntimeEvent)
    ensures
        r.deep_view() == snapshot_view(id@, *s),
{
    RuntimeEvent::AgentMetricsSnapshot {
        agent: id.clone(),
        cycles: s.cycles,
        successes: s.successes,
        failures: s.failures,
        prompt_tokens: s.prompt_tokens,
        completion_tokens: s.completion_tokens,
        latency_ms: (s.total_latency_ns / 1_000_000) as u64,
    }
}

fn push_event(events: &mut Vec<RuntimeEvent>, e: RuntimeEvent)
    ensures
        final(events).deep_view() == old(events).deep_view().push(e.deep_view()),
{
    let ghost ev = e.deep_view();
    events.push(e);
    assert(events.deep_view() =~= old(events).deep_view().push(ev));
}

/// The events that narrate the end of a successful act, in order.
pub fn success_events(id: &AgentId, output: &Option<Message>, satisfied: bool, stats: &AgentStats) -> (r: Vec<RuntimeEvent>)
    ensures
        r.deep_view() == success_views(
            id@,
            match output {
                Some(m) => Some(m@),
                None => None,
            },
            satisfied,
            *stats,
        ),
{
    let mut events: Vec<RuntimeEvent> = Vec::new();
    match output {
        Some(msg) => {
            match (&msg.author, &msg.recipient) {
                (Some(sender), Some(recipient)) => push_event(
                    &mut events,
                    RuntimeEvent::AgentDirectedSend { sender: sender.clone(), recipient: recipient.clone() },
                ),
                _ => {},
            }
            push_event(&mut events, RuntimeEvent::AgentPublished { agent: id.clone() });
            push_event(&mut events, RuntimeEvent::AgentReflected { agent: id.clone(), satisfied });
        },
        None => {},
    }
    push_event(&mut events, RuntimeEvent::AgentActed { agent: id.clone(), produced: output.is_some() });
    push_event(&mut events, snapshot(id, stats));
    let ghost ov = match output {
        Some(m) => Some(m@),
        None => None,
    };
    assert(events.deep_view() =~= success_views(id@, ov, satisfied, *stats));
    events
}

/// The events that narrate a failed act: the failure, then the agent's metrics.
pub fn failure_events(id: &AgentId, error: &str, stats: &AgentStats) -> (r: Vec<RuntimeEvent>)
    ensures
        r.deep_view() == seq![EventView::AgentFailed(id@, error@), snapshot_view(id@, *stats)],
{
    let mut events: Vec<RuntimeEvent> = Vec::new();
    push_event(&mut events, RuntimeEvent::AgentFailed { agent: id.clone(), error: crate::text::owned(error) });
    push_event(&mut events, snapshot(id, stats));
    assert(events.deep_view() =~= seq![EventView::AgentFailed(id@, error@), snapshot_view(id@, *stats)]);
    events
}

} // verus!

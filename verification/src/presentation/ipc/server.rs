//! The decisions of the duplex IPC core: how orchestration signals and
//! governance entries become events, which action a command asks for, and
//! how a model reply becomes a deliverable. The loop over the streams lives
//! in the application shell.

use vstd::prelude::*;

use super::{ConfigNode, CoreEvent, Mode, ReleaseSummary, TuiCommand};
use crate::application::model_router::model_for;
use crate::application::orchestrator::Signal;
use crate::application::persistence::ReleaseRecord;
use crate::domain::models::config::MaestroConfig;
use crate::domain::models::fsm::stage_label;
use crate::domain::models::governance::{
    contains_name, default_ids, default_persona_ids, kind_label, origin_label, GovernanceEntry,
};
use crate::domain::models::message::{Message, MessageRole, MessageView};
use crate::domain::models::persona::{Persona, PersonaView};
use crate::text::{
    chars_of, concat2, concat3, is_blank, lines_of, owned, split_lines, str_eq, string_from_chars,
    trim, trim_str,
};

verus! {

/// Map a governance entry to its IPC node (labelled by its id).
pub fn to_node(entry: &GovernanceEntry) -> (r: ConfigNode)
    ensures
        r.id@ == entry.id@,
        r.kind@ == kind_label(entry.kind),
        r.origin@ == origin_label(entry.origin),
        r.archived == entry.archived,
        r.label@ == entry.id@,
{
    ConfigNode {
        id: entry.id.clone(),
        kind: owned(entry.kind.as_str()),
        origin: owned(entry.origin.as_str()),
        archived: entry.archived,
        label: entry.id.clone(),
    }
}

/// The origin label of an id: built-in (the config and the default personas)
/// or custom.
pub fn origin_for(id: &str) -> (r: &'static str)
    ensures
        r@ == if id@ == "config.yml"@ || default_ids().contains(id@) {
            "default"@
        } else {
            "custom"@
        },
{
    if str_eq(id, "config.yml") || contains_name(default_persona_ids().as_slice(), id) {
        "default"
    } else {
        "custom"
    }
}

/// Map one orchestration signal to its IPC event, tracking the last stage
/// label in `prev` so stage signals become transitions.
pub fn signal_event(prev: &mut String, signal: Signal) -> (r: CoreEvent)
    ensures
        match signal {
            Signal::Stage(s) => final(prev)@ == stage_label(s) && (r matches CoreEvent::FsmTransition {
                from,
                to,
            } && from@ == old(prev)@ && to@ == stage_label(s)),
            Signal::Plan(steps) => final(prev)@ == old(prev)@ && (r matches CoreEvent::PlanProposed {
                steps: st,
            } && st.deep_view() == steps.deep_view()),
            Signal::Agent { persona, state } => final(prev)@ == old(prev)@ && (r matches CoreEvent::AgentState {
                agent,
                state: st,
            } && agent@ == persona@ && st@ == state@),
            Signal::Delegation { persona, task } => final(prev)@ == old(prev)@ && (r matches CoreEvent::Delegation {
                persona: p,
                task: t,
            } && p@ == persona@ && t@ == task@),
            Signal::Deliverable { persona, summary } => final(prev)@ == old(prev)@ && (
            r matches CoreEvent::Deliverable { persona: p, summary: s, artifact } && p@ == persona@ && s@
                == summary@ && artifact is None),
            Signal::ApprovalRequest { id, prompt } => final(prev)@ == old(prev)@ && (
            r matches CoreEvent::ApprovalRequest { id: i, prompt: p } && i@ == id@ && p@ == prompt@),
            Signal::Rollback { action } => final(prev)@ == old(prev)@ && (r matches CoreEvent::Log {
                level,
                message,
            } && level@ == "warn"@ && message@ == "rollback: "@ + action@),
            Signal::Log { level, message } => final(prev)@ == old(prev)@ && (r matches CoreEvent::Log {
                level: l,
                message: m,
            } && l@ == level@ && m@ == message@),
        },
{
    match signal {
        Signal::Stage(stage) => {
            let to = owned(stage.as_str());
            let from = prev.clone();
            *prev = owned(stage.as_str());
            CoreEvent::FsmTransition { from, to }
        },
        Signal::Plan(steps) => CoreEvent::PlanProposed { steps },
        Signal::Agent { persona, state } => CoreEvent::AgentState { agent: persona, state },
        Signal::Delegation { persona, task } => CoreEvent::Delegation { persona, task },
        Signal::Deliverable { persona, summary } => CoreEvent::Deliverable {
            persona,
            summary,
            artifact: None,
        },
        Signal::ApprovalRequest { id, prompt } => CoreEvent::ApprovalRequest { id, prompt },
        Signal::Rollback { action } => CoreEvent::Log {
            level: owned("warn"),
            message: concat2("rollback: ", action.as_str()),
        },
        Signal::Log { level, message } => CoreEvent::Log { level, message },
    }
}

/// A release as Product Mode lists it.
pub fn release_summary(record: ReleaseRecord) -> (r: ReleaseSummary)
    ensures
        r.version@ == record.version@,
        r.changelog@ == record.changelog@,
        r.created_at@ == record.created_at@,
{
    ReleaseSummary {
        version: record.version,
        changelog: record.changelog,
        created_at: record.created_at,
    }
}

/// The log event announcing a persisted release.
pub fn release_persisted(record: &ReleaseRecord) -> (r: CoreEvent)
    ensures
        r matches CoreEvent::Log { level, message } && level@ == "info"@ && message@ == "release "@
            + record.version@ + " persisted ("@ + record.id@ + ")"@,
{
    let mut message = concat3("release ", record.version.as_str(), " persisted (");
    message.append(record.id.as_str());
    message.append(")");
    CoreEvent::Log { level: owned("info"), message }
}

/// The model a persona runs on: its resolution in the configuration, or
/// `default` when there is no configuration.
pub fn resolve_model(config: Option<&MaestroConfig>, persona: &str) -> (r: String)
    ensures
        match config {
            Some(c) => c.agents@.contains_key(persona@) ==> r@ == c.agents@[persona@].model@,
            None => r@ == "default"@,
        },
        match config {
            Some(c) => !c.agents@.contains_key(persona@) ==> r@ == c.system.default_model@,
            None => true,
        },
{
    match config {
        Some(c) => model_for(c, persona).model,
        None => owned("default"),
    }
}

/// The first line of `t` (all of it when it has no line).
pub open spec fn first_line(t: Seq<char>) -> Seq<char> {
    if lines_of(t).len() > 0 {
        lines_of(t)[0]
    } else {
        t
    }
}

/// At most the first `n` characters of `s`.
pub open spec fn take_chars(s: Seq<char>, n: nat) -> Seq<char> {
    if s.len() <= n {
        s
    } else {
        s.subrange(0, n as int)
    }
}

/// A persona's deliverable from a model reply: the first line of the
/// trimmed reply, at most 200 characters; nothing for a blank reply.
pub open spec fn summary_of(content: Seq<char>) -> Option<Seq<char>> {
    let t = trim(content);
    if t.len() == 0 {
        None
    } else {
        Some(take_chars(first_line(t), 200))
    }
}

/// Turn a model reply into a persona's deliverable summary.
pub fn summarize_reply(content: &str) -> (r: Option<String>)
    ensures
        match summary_of(content@) {
            Some(s) => r matches Some(x) && x@ == s,
            None => r is None,
        },
{
    let text = trim_str(content);
    if text.unicode_len() == 0 {
        return None;
    }
    let lines = split_lines(text.as_str());
    let first = if lines.len() > 0 {
        lines[0].clone()
    } else {
        text
    };
    let cs = chars_of(first.as_str());
    let n = if cs.len() <= 200 {
        cs.len()
    } else {
        200
    };
    let r = string_from_chars(&cs, 0, n);
    proof {
        if cs@.len() <= 200 {
            assert(cs@.subrange(0, n as int) =~= cs@);
        }
    }
    Some(r)
}

/// The system instruction given to a persona asked for its deliverable.
pub open spec fn deliverer_instruction(persona: Seq<char>) -> Seq<char> {
    "You are the "@ + persona + " persona on a software team. Deliver your concise contribution to the task."@
}

/// The conversation that asks a persona's model for its deliverable: the
/// persona's instruction, then the demand (when it is not blank).
pub fn deliverer_messages(persona: &str, demand: &str) -> (r: Vec<Message>)
    ensures
        r@.map_values(|m: Message| m@) == (if is_blank(deliverer_instruction(persona@)) {
            Seq::empty()
        } else {
            seq![MessageView {
                role: MessageRole::System,
                content: deliverer_instruction(persona@),
                author: None,
                recipient: None,
            }]
        }) + (if is_blank(demand@) {
            Seq::empty()
        } else {
            seq![MessageView { role: MessageRole::User, content: demand@, author: None, recipient: None }]
        }),
{
    let mut messages: Vec<Message> = Vec::new();
    let instruction = concat3(
        "You are the ",
        persona,
        " persona on a software team. Deliver your concise contribution to the task.",
    );
    match Message::system(instruction.as_str()) {
        Ok(m) => messages.push(m),
        Err(_) => {},
    }
    let ghost head = messages@.map_values(|m: Message| m@);
    match Message::user(demand) {
        Ok(m) => messages.push(m),
        Err(_) => {},
    }
    assert(messages@.map_values(|m: Message| m@) =~= head + (if is_blank(demand@) {
        Seq::empty()
    } else {
        seq![MessageView { role: MessageRole::User, content: demand@, author: None, recipient: None }]
    }));
    messages
}

/// What the core does for a command.
#[derive(Debug, PartialEq, Eq)]
pub enum CommandAction {
    /// Acknowledge the mode switch.
    ModeChanged(Mode),
    /// Start a gated run for the demand.
    BeginRun(String),
    /// Refuse new input while a run awaits approval.
    WarnAwaitingApproval,
    /// Answer the pending run's gate.
    Resume(bool),
    /// An approval arrived with no run pending.
    WarnNoPending,
    /// Stop the loop.
    Stop,
    /// Echo a slash command to the log.
    EchoCommand(String),
    /// Send the governance tree.
    ConfigList,
    /// Send one entry's body.
    ConfigOpen(String),
    /// Validate a body.
    ConfigValidate { id: String, body: String },
    /// Create an entry.
    ConfigCreate { id: String, body: String },
    /// Validate, then save an entry.
    ConfigSave { id: String, body: String },
    /// Archive an entry.
    ConfigArchive(String),
    /// Send the release list.
    ListReleases,
    /// Run a release's demo.
    RunDemo(String),
    /// Report the command as unhandled.
    Unhandled,
}

/// Decide what a command asks for, given whether a run awaits approval.
pub fn route_command(command: &TuiCommand, pending: bool) -> (r: CommandAction)
    ensures
        match command {
            TuiCommand::SwitchMode { mode } => r == CommandAction::ModeChanged(*mode),
            TuiCommand::UserInput { text } => if pending {
                r == CommandAction::WarnAwaitingApproval
            } else {
                r matches CommandAction::BeginRun(t) && t@ == text@
            },
            TuiCommand::ApprovalResponse { approved, .. } => if pending {
                r == CommandAction::Resume(*approved)
            } else {
                r == CommandAction::WarnNoPending
            },
            TuiCommand::Command { name } => if name@ == "quit"@ || name@ == "exit"@ {
                r == CommandAction::Stop
            } else {
                r matches CommandAction::EchoCommand(m) && m@ == "/"@ + name@
            },
            TuiCommand::ConfigList => r == CommandAction::ConfigList,
            TuiCommand::ConfigOpen { id } => r matches CommandAction::ConfigOpen(i) && i@ == id@,
            TuiCommand::ConfigValidate { id, body } => r matches CommandAction::ConfigValidate { id: i, body: b }
                && i@ == id@ && b@ == body@,
            TuiCommand::ConfigCreate { id, body, .. } => r matches CommandAction::ConfigCreate { id: i, body: b }
                && i@ == id@ && b@ == body@,
            TuiCommand::ConfigSave { id, body } => r matches CommandAction::ConfigSave { id: i, body: b }
                && i@ == id@ && b@ == body@,
            TuiCommand::ConfigArchive { id } => r matches CommandAction::ConfigArchive(i) && i@ == id@,
            TuiCommand::ListReleases => r == CommandAction::ListReleases,
            TuiCommand::RunDemo { release } => r matches CommandAction::RunDemo(x) && x@ == release@,
            TuiCommand::ConfigEdit { .. } => r == CommandAction::Unhandled,
            TuiCommand::StopDemo => r == CommandAction::Unhandled,
        },
{
    match command {
        TuiCommand::SwitchMode { mode } => CommandAction::ModeChanged(*mode),
        TuiCommand::UserInput { text } => {
            if pending {
                CommandAction::WarnAwaitingApproval
            } else {
                CommandAction::BeginRun(text.clone())
            }
        },
        TuiCommand::ApprovalResponse { approved, .. } => {
            if pending {
                CommandAction::Resume(*approved)
            } else {
                CommandAction::WarnNoPending
            }
        },
        TuiCommand::Command { name } => {
            if str_eq(name.as_str(), "quit") || str_eq(name.as_str(), "exit") {
                CommandAction::Stop
            } else {
                CommandAction::EchoCommand(concat2("/", name.as_str()))
            }
        },
        TuiCommand::ConfigList => CommandAction::ConfigList,
        TuiCommand::ConfigOpen { id } => CommandAction::ConfigOpen(id.clone()),
        TuiCommand::ConfigValidate { id, body } => CommandAction::ConfigValidate {
            id: id.clone(),
            body: body.clone(),
        },
        TuiCommand::ConfigCreate { id, body, .. } => CommandAction::ConfigCreate {
            id: id.clone(),
            body: body.clone(),
        },
        TuiCommand::ConfigSave { id, body } => CommandAction::ConfigSave { id: id.clone(), body: body.clone() },
        TuiCommand::ConfigArchive { id } => CommandAction::ConfigArchive(id.clone()),
        TuiCommand::ListReleases => CommandAction::ListReleases,
        TuiCommand::RunDemo { release } => CommandAction::RunDemo(release.clone()),
        TuiCommand::ConfigEdit { .. } => CommandAction::Unhandled,
        TuiCommand::StopDemo => CommandAction::Unhandled,
    }
}

/// The operational personas of a catalog, by id.
pub open spec fn idle_agents(ps: Seq<PersonaView>) -> Seq<Seq<char>>
    decreases ps.len(),
{
    if ps.len() == 0 {
        Seq::empty()
    } else if ps.last().orchestrator {
        idle_agents(ps.drop_last())
    } else {
        idle_agents(ps.drop_last()).push(ps.last().id)
    }
}

/// The events the core greets the TUI with: Maestro mode, an online log
/// line, and every operational persona idle.
pub fn startup_events(personas: &Vec<Persona>) -> (r: Vec<CoreEvent>)
    ensures
        r@.len() == 2 + idle_agents(personas.deep_view()).len(),
        r@[0] == (CoreEvent::ModeChanged { mode: Mode::Maestro }),
        (r@[1] matches CoreEvent::Log { level, message } && level@ == "info"@ && message@ == "Maestro core online"@),
        forall|i: int|
            0 <= i < idle_agents(personas.deep_view()).len() ==> ((#[trigger] r@[i + 2]) matches CoreEvent::AgentState {
                agent,
                state,
            } && agent@ == idle_agents(personas.deep_view())[i] && state@ == "idle"@),
{
    let mut events: Vec<CoreEvent> = Vec::new();
    events.push(CoreEvent::ModeChanged { mode: Mode::Maestro });
    events.push(CoreEvent::Log { level: owned("info"), message: owned("Maestro core online") });
    let ghost ps = personas.deep_view();
    let mut i: usize = 0;
    while i < personas.len()
        invariant
            i <= personas@.len(),
            ps == personas.deep_view(),
            events@.len() == 2 + idle_agents(ps.subrange(0, i as int)).len(),
            events@[0] == (CoreEvent::ModeChanged { mode: Mode::Maestro }),
            (events@[1] matches CoreEvent::Log { level, message } && level@ == "info"@ && message@
                == "Maestro core online"@),
            forall|j: int|
                0 <= j < idle_agents(ps.subrange(0, i as int)).len() ==> ((#[trigger] events@[j + 2]) matches CoreEvent::AgentState {
                    agent,
                    state,
                } && agent@ == idle_agents(ps.subrange(0, i as int))[j] && state@ == "idle"@),
        decreases personas.len() - i,
    {
        proof {
            assert(ps.subrange(0, i + 1).drop_last() =~= ps.subrange(0, i as int));
            assert(ps.subrange(0, i + 1).last() == personas@[i as int]@);
        }
        if !personas[i].orchestrator {
            events.push(CoreEvent::AgentState { agent: personas[i].id.to_string(), state: owned("idle") });
        }
        i = i + 1;
    }
    assert(ps.subrange(0, personas@.len() as int) =~= ps);
    events
}

/// What a save request does once its body has been checked.
#[derive(Debug, PartialEq, Eq)]
pub enum SaveStep {
    /// The body failed its checks: report them and write nothing.
    Report { issues: Vec<String> },
    /// The body passed: write it under its id.
    Write { id: String, body: String },
}

/// Decide a save: an entry is written only when its body passed validation
/// (`validation` is the pair `(ok, issues)` that validating it gave);
/// otherwise the issues are reported and nothing is written.
pub fn config_save_step(id: String, body: String, validation: (bool, Vec<String>)) -> (r: SaveStep)
    ensures
        validation.0 ==> (r matches SaveStep::Write { id: i, body: b } && i@ == id@ && b@ == body@),
        !validation.0 ==> (r matches SaveStep::Report { issues } && issues.deep_view()
            == validation.1.deep_view()),
{
    let (ok, issues) = validation;
    if ok {
        SaveStep::Write { id, body }
    } else {
        SaveStep::Report { issues }
    }
}

} // verus!

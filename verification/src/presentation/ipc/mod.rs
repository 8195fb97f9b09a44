//! IPC protocol: line-delimited JSON frames on stdio, each carrying the
//! protocol version. The message types and the version rule live here; the
//! JSON encoding lives in the application shell.

use vstd::prelude::*;

use crate::text::{concat2, concat3, decimal, fmt_u64, owned};

pub mod server;

verus! {

/// Protocol version, bumped only alongside a documented contract change.
pub const PROTOCOL_VERSION: u32 = 2;

/// The active Workspace mode.
#[derive(Debug, Clone, Copy, PartialEq, Eq, Structural)]
pub enum Mode {
    /// Governance editing and archive.
    Config,
    /// Orchestration: demand, plan, delegation, delivery.
    Maestro,
    /// Live demo of a shipped release and its notes.
    Product,
}

/// A single node in the Config Mode governance tree.
#[derive(Debug, PartialEq, Eq)]
pub struct ConfigNode {
    /// Stable identifier (path-like, e.g. `personas/project_manager`).
    pub id: String,
    /// Entry kind: `config` | `persona` | `skill` | `scope`.
    pub kind: String,
    /// Origin: `default` | `custom`.
    pub origin: String,
    /// Whether the entry has been archived.
    pub archived: bool,
    /// Human-facing label.
    pub label: String,
}

/// A shipped release surfaced in Product Mode.
#[derive(Debug, PartialEq, Eq)]
pub struct ReleaseSummary {
    pub version: String,
    pub changelog: String,
    pub created_at: String,
}

/// Events streamed from the core to the TUI (metric samples, which carry a
/// floating-point value, are produced by the shell alone).
#[derive(Debug, PartialEq, Eq)]
pub enum CoreEvent {
    AgentState { agent: String, state: String },
    FsmTransition { from: String, to: String },
    Log { level: String, message: String },
    Heartbeat { seq: u64 },
    ApprovalRequest { id: String, prompt: String },
    ModeChanged { mode: Mode },
    ConfigTree { entries: Vec<ConfigNode> },
    ConfigEntry { id: String, entry_kind: String, origin: String, archived: bool, body: String },
    ConfigValidation { ok: bool, issues: Vec<String> },
    ConfigSaved { id: String },
    PlanProposed { steps: Vec<String> },
    Delegation { persona: String, task: String },
    Deliverable { persona: String, summary: String, artifact: Option<String> },
    ReleaseList { releases: Vec<ReleaseSummary> },
    DemoOutput { stream: String, chunk: String },
    DemoExited { code: i32 },
}

/// Commands sent from the TUI to the core.
#[derive(Debug, PartialEq, Eq)]
pub enum TuiCommand {
    UserInput { text: String },
    Command { name: String },
    ApprovalResponse { id: String, approved: bool },
    SwitchMode { mode: Mode },
    ConfigList,
    ConfigOpen { id: String },
    ConfigEdit { id: String, body: String },
    ConfigCreate { entry_kind: String, id: String, body: String },
    ConfigArchive { id: String },
    ConfigValidate { id: String, body: String },
    ConfigSave { id: String, body: String },
    ListReleases,
    RunDemo { release: String },
    StopDemo,
}

/// Errors decoding a frame.
#[derive(Debug, PartialEq, Eq)]
pub enum ProtocolError {
    /// The line was not a valid frame for the expected message.
    Malformed(String),
    /// The frame's protocol version is not supported.
    UnsupportedVersion(u32),
}

/// The message of a protocol error.
pub open spec fn protocol_error_text(e: ProtocolError) -> Seq<char> {
    match e {
        ProtocolError::Malformed(m) => "malformed frame: "@ + m@,
        ProtocolError::UnsupportedVersion(v) => "unsupported protocol version "@ + decimal(v as nat)
            + " (expected 2)"@,
    }
}

impl ProtocolError {
    /// The human-readable message of this error.
    pub fn message(&self) -> (r: String)
        ensures
            r@ == protocol_error_text(*self),
    {
        match self {
            ProtocolError::Malformed(m) => concat2("malformed frame: ", m.as_str()),
            ProtocolError::UnsupportedVersion(v) => concat3(
                "unsupported protocol version ",
                fmt_u64(*v as u64).as_str(),
                " (expected 2)",
            ),
        }
    }
}

/// Check a frame's version field: it must be present and equal
/// [`PROTOCOL_VERSION`].
pub fn check_version(v: Option<u64>) -> (r: Result<(), ProtocolError>)
    ensures
        match v {
            None => r matches Err(ProtocolError::Malformed(m)) && m@ == "missing 'v' version field"@,
            Some(x) => if x == PROTOCOL_VERSION {
                r is Ok
            } else {
                r == Err::<(), ProtocolError>(ProtocolError::UnsupportedVersion(x as u32))
            },
        },
{
    match v {
        None => Err(ProtocolError::Malformed(owned("missing 'v' version field"))),
        Some(x) => {
            if x == 2 {
                Ok(())
            } else {
                Err(ProtocolError::UnsupportedVersion(x as u32))
            }
        },
    }
}

} // verus!

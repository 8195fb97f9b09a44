//! Tool-use domain types: what tools exist, how they are invoked, and what
//! they return.

use vstd::prelude::*;

use super::str_map::StrMap;
use crate::text::{concat2, decimal, fmt_u64, owned};

verus! {

/// The kind of tool; determines dispatch and governance policy.
#[derive(Debug, Clone, Copy, PartialEq, Eq, Structural)]
pub enum ToolKind {
    /// Read a file from the project.
    FileRead,
    /// Write or create a file in the project.
    FileWrite,
    /// Execute a shell command.
    ShellExec,
}

/// The display label of a tool kind.
pub open spec fn tool_label(k: ToolKind) -> Seq<char> {
    match k {
        ToolKind::FileRead => "read_file"@,
        ToolKind::FileWrite => "write_file"@,
        ToolKind::ShellExec => "shell_exec"@,
    }
}

impl ToolKind {
    /// Whether this tool kind requires explicit user approval before execution.
    pub fn requires_approval(self) -> (r: bool)
        ensures
            r == (self != ToolKind::FileRead),
    {
        match self {
            ToolKind::FileRead => false,
            ToolKind::FileWrite => true,
            ToolKind::ShellExec => true,
        }
    }

    /// Human-readable label for display.
    pub fn label(self) -> (r: &'static str)
        ensures
            r@ == tool_label(self),
    {
        match self {
            ToolKind::FileRead => "read_file",
            ToolKind::FileWrite => "write_file",
            ToolKind::ShellExec => "shell_exec",
        }
    }
}

/// A tool definition in the registry.
#[derive(Debug, PartialEq, Eq)]
pub struct ToolDefinition {
    /// Tool name (matches the kind's label).
    pub name: String,
    /// Human-readable description shown to agents.
    pub description: String,
    /// The tool kind for dispatch.
    pub kind: ToolKind,
    /// Whether execution requires user approval.
    pub requires_approval: bool,
}

/// A tool invocation request parsed from LLM output.
#[derive(Debug, PartialEq, Eq)]
pub struct ToolCall {
    /// Which tool to invoke.
    pub tool: String,
    /// Arguments by name.
    pub arguments: StrMap<String>,
}

/// The outcome of executing a tool.
#[derive(Debug, PartialEq, Eq)]
pub struct ToolResult {
    /// The tool that was called.
    pub tool: String,
    /// Whether the call succeeded.
    pub success: bool,
    /// Output content (file contents, command stdout, error message).
    pub output: String,
}

/// Errors from tool dispatch.
#[derive(Debug, PartialEq, Eq)]
pub enum ToolError {
    UnknownTool(String),
    MissingArgument(String),
    ExecutionFailed(String),
    RequiresApproval,
    Timeout(u64),
}

/// The message of a tool error.
pub open spec fn tool_error_text(e: ToolError) -> Seq<char> {
    match e {
        ToolError::UnknownTool(t) => "unknown tool: "@ + t@,
        ToolError::MissingArgument(a) => "missing argument: "@ + a@,
        ToolError::ExecutionFailed(m) => "tool execution failed: "@ + m@,
        ToolError::RequiresApproval => "tool requires approval"@,
        ToolError::Timeout(s) => "tool timed out after "@ + decimal(s as nat) + "s"@,
    }
}

impl ToolError {
    /// The human-readable message of this error.
    pub fn message(&self) -> (r: String)
        ensures
            r@ == tool_error_text(*self),
    {
        match self {
            ToolError::UnknownTool(t) => concat2("unknown tool: ", t.as_str()),
            ToolError::MissingArgument(a) => concat2("missing argument: ", a.as_str()),
            ToolError::ExecutionFailed(m) => concat2("tool execution failed: ", m.as_str()),
            ToolError::RequiresApproval => owned("tool requires approval"),
            ToolError::Timeout(s) => {
                let n = fmt_u64(*s);
                let mut r = concat2("tool timed out after ", n.as_str());
                r.append("s");
                r
            },
        }
    }
}

} // verus!

//! Port for the registry that executes agent tool calls.

use vstd::prelude::*;

use crate::domain::models::tool::{ToolCall, ToolDefinition, ToolError, ToolResult};

verus! {

/// The tools available to agents and how to run them.
pub trait ToolRegistry {
    /// What executing `call` may give: each registry says which outcomes its
    /// tools can produce for a call. A registry that says nothing admits
    /// every outcome.
    closed spec fn may_return(&self, call: ToolCall, r: Result<ToolResult, ToolError>) -> bool {
        true
    }

    /// The tools this registry offers.
    fn available_tools(&self) -> Vec<ToolDefinition>;

    /// Execute a tool call.
    fn execute(&self, call: &ToolCall) -> (r: Result<ToolResult, ToolError>)
        ensures
            self.may_return(*call, r),
    ;
}

} // verus!

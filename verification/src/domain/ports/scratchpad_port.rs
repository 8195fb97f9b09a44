//! Port for a scratchpad shared between concurrently running agents.

use vstd::prelude::*;

use crate::domain::models::agent_id::AgentId;
use crate::domain::models::scratchpad::Scratchpad;

verus! {

/// A scratchpad that agents share; implementations provide their own
/// synchronisation.
pub trait ScratchpadPort {
    /// Write a key/value pair on behalf of `author`.
    fn write(&self, key: &str, value: &str, author: &AgentId);

    /// Read a value by key.
    fn read(&self, key: &str) -> Option<String>;

    /// A copy of the whole scratchpad.
    fn snapshot(&self) -> Scratchpad;
}

} // verus!

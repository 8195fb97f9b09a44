//! Typed runtime errors.
//!
//! Application-level failures propagate as these variants; error aggregation
//! for display is confined to the command-line boundary.

use vstd::prelude::*;

use crate::domain::models::message::MessageError;
use crate::domain::ports::llm_provider::{llm_error_text, LlmError};
use crate::text::concat2;

verus! {

/// Errors surfaced while orchestrating agents.
#[derive(Debug, PartialEq, Eq)]
pub enum RuntimeError {
    /// A provider call failed.
    Provider(LlmError),
    /// Constructing a message failed.
    Message(MessageError),
    /// No provider was available for the requested work.
    NoReadyProvider(String),
}

impl From<LlmError> for RuntimeError {
    fn from(e: LlmError) -> (r: Self) {
        RuntimeError::Provider(e)
    }
}

impl vstd::std_specs::convert::FromSpecImpl<LlmError> for RuntimeError {
    open spec fn obeys_from_spec() -> bool {
        true
    }

    open spec fn from_spec(e: LlmError) -> Self {
        RuntimeError::Provider(e)
    }
}

impl From<MessageError> for RuntimeError {
    fn from(e: MessageError) -> (r: Self) {
        RuntimeError::Message(e)
    }
}

impl vstd::std_specs::convert::FromSpecImpl<MessageError> for RuntimeError {
    open spec fn obeys_from_spec() -> bool {
        true
    }

    open spec fn from_spec(e: MessageError) -> Self {
        RuntimeError::Message(e)
    }
}

/// The message of a runtime error (wrapped errors show their own message).
pub open spec fn runtime_error_text(e: RuntimeError) -> Seq<char> {
    match e {
        RuntimeError::Provider(p) => llm_error_text(p),
        RuntimeError::Message(_) => "message content must not be empty"@,
        RuntimeError::NoReadyProvider(m) => "no ready provider: "@ + m@,
    }
}

impl RuntimeError {
    /// The human-readable message of this error.
    pub fn message(&self) -> (r: String)
        ensures
            r@ == runtime_error_text(*self),
    {
        match self {
            RuntimeError::Provider(p) => p.message(),
            RuntimeError::Message(m) => m.message(),
            RuntimeError::NoReadyProvider(m) => concat2("no ready provider: ", m.as_str()),
        }
    }
}

} // verus!

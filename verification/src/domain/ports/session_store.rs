//! Port for persisting and restoring session transcripts.

use vstd::prelude::*;

use crate::domain::models::message::Message;
use crate::text::concat2;

verus! {

/// What one agent said and remembered during a session.
#[derive(Debug)]
pub struct AgentTranscript {
    /// The agent's id.
    pub agent_id: String,
    /// The agent's messages, oldest first.
    pub messages: Vec<Message>,
    /// A summary of the agent's memory, if one was made.
    pub summary: Option<String>,
}

/// A whole session, keyed by the fingerprint of its demand.
#[derive(Debug)]
pub struct SessionTranscript {
    /// Fingerprint of the demand.
    pub fingerprint: String,
    /// The demand itself.
    pub demand: String,
    /// One transcript per agent.
    pub transcripts: Vec<AgentTranscript>,
}

/// Errors from a session store.
#[derive(Debug, PartialEq, Eq)]
pub enum SessionStoreError {
    /// Reading or writing the store failed; the text describes why.
    Io(String),
    /// The stored data could not be encoded or decoded.
    Serde(String),
}

/// The message of a session store error.
pub open spec fn store_error_text(e: SessionStoreError) -> Seq<char> {
    match e {
        SessionStoreError::Io(m) => "I/O error: "@ + m@,
        SessionStoreError::Serde(m) => "serialization error: "@ + m@,
    }
}

impl SessionStoreError {
    /// The human-readable message of this error.
    pub fn message(&self) -> (r: String)
        ensures
            r@ == store_error_text(*self),
    {
        match self {
            SessionStoreError::Io(m) => concat2("I/O error: ", m.as_str()),
            SessionStoreError::Serde(m) => concat2("serialization error: ", m.as_str()),
        }
    }
}

/// Persists session transcripts, keyed by demand fingerprint.
pub trait SessionStore {
    /// Save a transcript, replacing any stored under the same fingerprint.
    fn save(&self, transcript: &SessionTranscript) -> Result<(), SessionStoreError>;

    /// Load the transcript stored under `fingerprint`, if any.
    fn load(&self, fingerprint: &str) -> Result<Option<SessionTranscript>, SessionStoreError>;
}

} // verus!

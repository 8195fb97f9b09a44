//! `Message` and `MessageRole`: the unit of work exchanged between agents.

use vstd::prelude::*;

use super::agent_id::AgentId;
use crate::text::{is_blank, is_blank_str, owned, str_eq};

verus! {

/// Who authored a [`Message`].
#[derive(Debug, Clone, Copy, PartialEq, Eq, Structural)]
pub enum MessageRole {
    /// System / instruction context.
    System,
    /// End-user input.
    User,
    /// Model or agent output.
    Assistant,
}

/// Errors produced when constructing a [`Message`].
#[derive(Debug, Clone, Copy, PartialEq, Eq, Structural)]
pub enum MessageError {
    /// The message content was empty or whitespace-only.
    EmptyContent,
}

impl MessageError {
    /// The human-readable message of this error.
    pub fn message(&self) -> (r: String)
        ensures
            r@ == "message content must not be empty"@,
    {
        owned("message content must not be empty")
    }
}

/// A message: a role, its content, and an optional authoring agent.
#[derive(Debug, PartialEq, Eq)]
pub struct Message {
    /// Authorship role.
    pub role: MessageRole,
    /// The message body (never blank when built by the constructors).
    pub content: String,
    /// The agent that authored the message, when applicable.
    pub author: Option<AgentId>,
    /// The one agent a directed message is meant for; `None` for a broadcast.
    pub recipient: Option<AgentId>,
}

/// The abstract value of a [`Message`].
pub struct MessageView {
    pub role: MessageRole,
    pub content: Seq<char>,
    pub author: Option<Seq<char>>,
    pub recipient: Option<Seq<char>>,
}

/// Agent `id` may see message `m`.
pub open spec fn visible_to(m: MessageView, id: Seq<char>) -> bool {
    match m.recipient {
        None => true,
        Some(to) => to == id || m.author == Some(id),
    }
}

impl View for Message {
    type V = MessageView;

    open spec fn view(&self) -> MessageView {
        MessageView {
            role: self.role,
            content: self.content@,
            author: match self.author {
                Some(a) => Some(a@),
                None => None,
            },
            recipient: match self.recipient {
                Some(a) => Some(a@),
                None => None,
            },
        }
    }
}

impl DeepView for Message {
    type V = MessageView;

    open spec fn deep_view(&self) -> MessageView {
        self@
    }
}

impl Clone for Message {
    fn clone(&self) -> (r: Self)
        ensures
            r@ == self@,
    {
        let author = match &self.author {
            Some(a) => Some(a.clone()),
            None => None,
        };
        let recipient = match &self.recipient {
            Some(a) => Some(a.clone()),
            None => None,
        };
        Message { role: self.role, content: self.content.clone(), author, recipient }
    }
}

impl Message {
    /// Construct a validated message, rejecting blank content.
    pub fn new(role: MessageRole, content: &str, author: Option<AgentId>) -> (r: Result<
        Message,
        MessageError,
    >)
        ensures
            r is Err <==> is_blank(content@),
            r matches Err(e) ==> e == MessageError::EmptyContent,
            r matches Ok(m) ==> m.role == role && m.content@ == content@ && m.author == author
                && m.recipient is None,
    {
        if is_blank_str(content) {
            return Err(MessageError::EmptyContent);
        }
        Ok(Message { role, content: owned(content), author, recipient: None })
    }

    /// A system message.
    pub fn system(content: &str) -> (r: Result<Message, MessageError>)
        ensures
            r is Err <==> is_blank(content@),
            r matches Err(e) ==> e == MessageError::EmptyContent,
            r matches Ok(m) ==> m.role == MessageRole::System && m.content@ == content@
                && m.author is None && m.recipient is None,
    {
        Self::new(MessageRole::System, content, None)
    }

    /// A user message.
    pub fn user(content: &str) -> (r: Result<Message, MessageError>)
        ensures
            r is Err <==> is_blank(content@),
            r matches Err(e) ==> e == MessageError::EmptyContent,
            r matches Ok(m) ==> m.role == MessageRole::User && m.content@ == content@
                && m.author is None && m.recipient is None,
    {
        Self::new(MessageRole::User, content, None)
    }

    /// An agent-authored assistant message.
    pub fn assistant(author: AgentId, content: &str) -> (r: Result<Message, MessageError>)
        ensures
            r is Err <==> is_blank(content@),
            r matches Err(e) ==> e == MessageError::EmptyContent,
            r matches Ok(m) ==> m.role == MessageRole::Assistant && m.content@ == content@
                && m.author == Some(author) && m.recipient is None,
    {
        Self::new(MessageRole::Assistant, content, Some(author))
    }

    /// An assistant message from `sender` meant for `recipient` only.
    pub fn directed(sender: AgentId, recipient: AgentId, content: &str) -> (r: Result<Message, MessageError>)
        ensures
            r is Err <==> is_blank(content@),
            r matches Err(e) ==> e == MessageError::EmptyContent,
            r matches Ok(m) ==> m.role == MessageRole::Assistant && m.content@ == content@
                && m.author == Some(sender) && m.recipient == Some(recipient),
    {
        if is_blank_str(content) {
            return Err(MessageError::EmptyContent);
        }
        Ok(
            Message {
                role: MessageRole::Assistant,
                content: owned(content),
                author: Some(sender),
                recipient: Some(recipient),
            },
        )
    }

    /// Whether the message is meant for one agent only.
    pub fn is_directed(&self) -> (r: bool)
        ensures
            r == self.recipient is Some,
    {
        self.recipient.is_some()
    }

    /// Whether agent `id` may see this message: broadcasts are seen by all; a
    /// directed message only by its recipient and its author.
    pub fn is_visible_to(&self, id: &AgentId) -> (r: bool)
        ensures
            r == visible_to(self@, id@),
    {
        match &self.recipient {
            None => true,
            Some(to) => {
                if str_eq(to.as_str(), id.as_str()) {
                    true
                } else {
                    match &self.author {
                        Some(from) => str_eq(from.as_str(), id.as_str()),
                        None => false,
                    }
                }
            },
        }
    }
}

} // verus!

//! `AgentId`: a validated, non-blank identifier of an agent or persona.

use vstd::prelude::*;

use crate::text::{is_blank, is_blank_str, owned};

verus! {

/// Errors produced when constructing an [`AgentId`].
#[derive(Debug, Clone, Copy, PartialEq, Eq, Structural)]
pub enum AgentIdError {
    /// The identifier was empty or whitespace-only.
    Empty,
}

impl AgentIdError {
    /// The human-readable message of this error.
    pub fn message(&self) -> (r: String)
        ensures
            r@ == "agent id must not be empty"@,
    {
        owned("agent id must not be empty")
    }
}

/// A non-empty, immutable agent identifier. It is never blank.
#[derive(Debug, Hash)]
pub struct AgentId(String);

impl AgentId {
    #[verifier::type_invariant]
    spec fn never_blank(self) -> bool {
        !is_blank(self.0@)
    }

    /// Construct an [`AgentId`], rejecting empty and whitespace-only values.
    pub fn new(value: &str) -> (r: Result<AgentId, AgentIdError>)
        ensures
            r is Err <==> is_blank(value@),
            r matches Err(e) ==> e == AgentIdError::Empty,
            r matches Ok(id) ==> id@ == value@,
    {
        if is_blank_str(value) {
            return Err(AgentIdError::Empty);
        }
        Ok(AgentId(owned(value)))
    }

    /// Borrow the identifier as a string slice.
    pub fn as_str(&self) -> (r: &str)
        ensures
            r@ == self@,
            !is_blank(r@),
    {
        proof {
            use_type_invariant(self);
        }
        self.0.as_str()
    }

    /// The identifier as an owned string (its display form).
    pub fn to_string(&self) -> (r: String)
        ensures
            r@ == self@,
            !is_blank(r@),
    {
        proof {
            use_type_invariant(self);
        }
        self.0.clone()
    }
}

impl View for AgentId {
    type V = Seq<char>;

    closed spec fn view(&self) -> Seq<char> {
        self.0@
    }
}

impl DeepView for AgentId {
    type V = Seq<char>;

    open spec fn deep_view(&self) -> Seq<char> {
        self@
    }
}

impl Clone for AgentId {
    fn clone(&self) -> (r: Self)
        ensures
            r@ == self@,
    {
        proof {
            use_type_invariant(self);
        }
        AgentId(self.0.clone())
    }
}

impl PartialEq for AgentId {
    fn eq(&self, other: &Self) -> (r: bool) {
        self.0 == other.0
    }
}

impl Eq for AgentId {
}

impl vstd::std_specs::cmp::PartialEqSpecImpl for AgentId {
    open spec fn obeys_eq_spec() -> bool {
        true
    }

    open spec fn eq_spec(&self, other: &Self) -> bool {
        self@ == other@
    }
}

} // verus!

//! Maestro: the verified core of an agentic workflow orchestrator.

use vstd::prelude::*;

pub mod application;
pub mod domain;
pub mod infrastructure;
pub mod presentation;
pub mod text;

verus! {
} // verus!

//! Micro-project finite state machine.
//!
//! The six-stage lifecycle every micro-project flows through:
//! `Ideation -> Planning -> Approval -> Instrumentation -> Execution -> Verification`.
//! Transitions are strictly sequential; illegal transitions are rejected with a
//! typed error.

use vstd::prelude::*;

use crate::text::{concat2, concat3, owned};

verus! {

/// A stage in the micro-project lifecycle.
#[derive(Debug, Clone, Copy, PartialEq, Eq, Structural)]
pub enum FsmStage {
    /// Capture the user request.
    Ideation,
    /// Produce the strategic plan.
    Planning,
    /// User validates the plan (gated by approval).
    Approval,
    /// Generate personas and inject prompts, skills and specs.
    Instrumentation,
    /// Serial cascade of actions (gated by rollback plan and approval).
    Execution,
    /// Validate the outcome, package, and persist.
    Verification,
}

/// The position of a stage in the lifecycle, from 0 to 5.
pub open spec fn stage_index(s: FsmStage) -> nat {
    match s {
        FsmStage::Ideation => 0,
        FsmStage::Planning => 1,
        FsmStage::Approval => 2,
        FsmStage::Instrumentation => 3,
        FsmStage::Execution => 4,
        FsmStage::Verification => 5,
    }
}

/// The stage at a lifecycle position (`Verification` past the end).
pub open spec fn stage_at(i: nat) -> FsmStage {
    if i == 0 {
        FsmStage::Ideation
    } else if i == 1 {
        FsmStage::Planning
    } else if i == 2 {
        FsmStage::Approval
    } else if i == 3 {
        FsmStage::Instrumentation
    } else if i == 4 {
        FsmStage::Execution
    } else {
        FsmStage::Verification
    }
}

/// The stage after `s`, or `None` at the terminal stage.
pub open spec fn next_stage(s: FsmStage) -> Option<FsmStage> {
    if stage_index(s) < 5 {
        Some(stage_at(stage_index(s) + 1))
    } else {
        None
    }
}

/// The snake_case label of a stage.
pub open spec fn stage_label(s: FsmStage) -> Seq<char> {
    match s {
        FsmStage::Ideation => "ideation"@,
        FsmStage::Planning => "planning"@,
        FsmStage::Approval => "approval"@,
        FsmStage::Instrumentation => "instrumentation"@,
        FsmStage::Execution => "execution"@,
        FsmStage::Verification => "verification"@,
    }
}

impl FsmStage {
    /// The ordered lifecycle.
    pub const ALL: [FsmStage; 6] = [
        FsmStage::Ideation,
        FsmStage::Planning,
        FsmStage::Approval,
        FsmStage::Instrumentation,
        FsmStage::Execution,
        FsmStage::Verification,
    ];

    /// The snake_case label used on the IPC boundary and in narration.
    pub fn as_str(self) -> (r: &'static str)
        ensures
            r@ == stage_label(self),
    {
        match self {
            FsmStage::Ideation => "ideation",
            FsmStage::Planning => "planning",
            FsmStage::Approval => "approval",
            FsmStage::Instrumentation => "instrumentation",
            FsmStage::Execution => "execution",
            FsmStage::Verification => "verification",
        }
    }

    /// The next stage in sequence, or `None` at the terminal `Verification`.
    pub fn next(self) -> (r: Option<FsmStage>)
        ensures
            r == next_stage(self),
    {
        match self {
            FsmStage::Ideation => Some(FsmStage::Planning),
            FsmStage::Planning => Some(FsmStage::Approval),
            FsmStage::Approval => Some(FsmStage::Instrumentation),
            FsmStage::Instrumentation => Some(FsmStage::Execution),
            FsmStage::Execution => Some(FsmStage::Verification),
            FsmStage::Verification => None,
        }
    }

    /// Whether this stage gates on explicit user approval before advancing.
    pub fn requires_approval(self) -> (r: bool)
        ensures
            r == (self == FsmStage::Approval || self == FsmStage::Execution),
    {
        match self {
            FsmStage::Approval | FsmStage::Execution => true,
            _ => false,
        }
    }
}

/// A transition that violates the sequential lifecycle.
#[derive(Debug, PartialEq, Eq)]
pub enum FsmError {
    /// The requested transition is not the legal next step.
    IllegalTransition {
        /// Current stage label.
        from: String,
        /// Requested stage label.
        to: String,
    },
    /// Advance was requested past the terminal stage.
    Terminal(String),
}

/// The message of an FSM error.
pub open spec fn fsm_error_text(e: FsmError) -> Seq<char> {
    match e {
        FsmError::IllegalTransition { from, to } => "illegal FSM transition from "@ + from@ + " to "@
            + to@,
        FsmError::Terminal(s) => "cannot advance past the terminal stage "@ + s@,
    }
}

impl FsmError {
    /// The human-readable message of this error.
    pub fn message(&self) -> (r: String)
        ensures
            r@ == fsm_error_text(*self),
    {
        match self {
            FsmError::IllegalTransition { from, to } => {
                let mut r = concat3("illegal FSM transition from ", from.as_str(), " to ");
                r.append(to.as_str());
                r
            },
            FsmError::Terminal(s) => concat2("cannot advance past the terminal stage ", s.as_str()),
        }
    }
}

/// Whether `to` is the legal next stage after `from`.
pub fn can_transition(from: FsmStage, to: FsmStage) -> (r: bool)
    ensures
        r == (next_stage(from) == Some(to)),
{
    match from.next() {
        Some(n) => n == to,
        None => false,
    }
}

/// A micro-project and its current lifecycle stage.
#[derive(Debug, PartialEq, Eq)]
pub struct MicroProject {
    /// Stable id for the run.
    pub id: String,
    /// The originating user demand.
    pub demand: String,
    /// The current lifecycle stage.
    pub stage: FsmStage,
}

impl MicroProject {
    /// A fresh micro-project in `Ideation`.
    pub fn new(id: &str, demand: &str) -> (r: Self)
        ensures
            r.id@ == id@,
            r.demand@ == demand@,
            r.stage == FsmStage::Ideation,
    {
        MicroProject { id: owned(id), demand: owned(demand), stage: FsmStage::Ideation }
    }

    /// Advance to the next stage, returning it. Errors at the terminal stage.
    pub fn advance(&mut self) -> (r: Result<FsmStage, FsmError>)
        ensures
            final(self).id == old(self).id,
            final(self).demand == old(self).demand,
            match next_stage(old(self).stage) {
                Some(n) => r == Ok::<FsmStage, FsmError>(n) && final(self).stage == n,
                None => final(self).stage == old(self).stage && (r matches Err(
                    FsmError::Terminal(label),
                ) && label@ == stage_label(old(self).stage)),
            },
    {
        match self.stage.next() {
            Some(next) => {
                self.stage = next;
                Ok(next)
            },
            None => Err(FsmError::Terminal(owned(self.stage.as_str()))),
        }
    }

    /// Transition to an explicit stage, rejecting illegal jumps.
    pub fn transition_to(&mut self, to: FsmStage) -> (r: Result<(), FsmError>)
        ensures
            final(self).id == old(self).id,
            final(self).demand == old(self).demand,
            next_stage(old(self).stage) == Some(to) ==> r is Ok && final(self).stage == to,
            next_stage(old(self).stage) != Some(to) ==> final(self).stage == old(self).stage && (
            r matches Err(FsmError::IllegalTransition { from, to: to_label }) && from@
                == stage_label(old(self).stage) && to_label@ == stage_label(to)),
    {
        if can_transition(self.stage, to) {
            self.stage = to;
            Ok(())
        } else {
            Err(
                FsmError::IllegalTransition {
                    from: owned(self.stage.as_str()),
                    to: owned(to.as_str()),
                },
            )
        }
    }
}

/// The lifecycle is a single line: `to` may follow `from` exactly when it is
/// the stage one position later, so no stage can be skipped or revisited.
pub proof fn lemma_transitions_are_sequential(from: FsmStage, to: FsmStage)
    ensures
        (next_stage(from) == Some(to)) <==> stage_index(to) == stage_index(from) + 1,
{
}

/// Only `Verification` is terminal, and every other stage has exactly one
/// successor: the one at the next position.
pub proof fn lemma_only_verification_is_terminal(s: FsmStage)
    ensures
        next_stage(s) is None <==> s == FsmStage::Verification,
        next_stage(s) matches Some(n) ==> stage_index(n) == stage_index(s) + 1,
{
}

/// Advancing `k` times from `Ideation` (for `k <= 5`) reaches the stage at
/// position `k`; a sixth advance fails.
pub proof fn lemma_advance_walks_the_lifecycle(k: nat)
    requires
        k <= 5,
    ensures
        stage_index(stage_at(k)) == k,
        k < 5 ==> next_stage(stage_at(k)) == Some(stage_at(k + 1)),
        k == 5 ==> next_stage(stage_at(k)) is None,
{
}

} // verus!

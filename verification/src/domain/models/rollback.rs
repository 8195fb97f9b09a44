//! Rollback-as-a-service.
//!
//! A micro-project's execution is a cascade of steps, each with a concrete
//! inverse. If execution is rejected or fails, the inverse actions are applied
//! in reverse order (undo most-recent first).

use vstd::prelude::*;

use crate::text::owned;

verus! {

/// One cascade step and the action that undoes it.
#[derive(Debug, PartialEq, Eq)]
pub struct CascadeStep {
    /// The forward action.
    pub forward: String,
    /// The action that reverses [`CascadeStep::forward`].
    pub inverse: String,
}

impl DeepView for CascadeStep {
    type V = (Seq<char>, Seq<char>);

    open spec fn deep_view(&self) -> (Seq<char>, Seq<char>) {
        (self.forward@, self.inverse@)
    }
}

impl Clone for CascadeStep {
    fn clone(&self) -> (r: Self)
        ensures
            r.deep_view() == self.deep_view(),
    {
        CascadeStep { forward: self.forward.clone(), inverse: self.inverse.clone() }
    }
}

impl CascadeStep {
    /// Construct a step from its forward and inverse actions.
    pub fn new(forward: &str, inverse: &str) -> (r: Self)
        ensures
            r.forward@ == forward@,
            r.inverse@ == inverse@,
    {
        CascadeStep { forward: owned(forward), inverse: owned(inverse) }
    }
}

/// The inverse actions of `steps`, most recent first.
pub open spec fn inverses_reversed(steps: Seq<(Seq<char>, Seq<char>)>) -> Seq<Seq<char>>
    decreases steps.len(),
{
    if steps.len() == 0 {
        Seq::empty()
    } else {
        seq![steps.last().1] + inverses_reversed(steps.drop_last())
    }
}

/// An ordered rollback plan built as the cascade proceeds.
#[derive(Debug, PartialEq, Eq)]
pub struct RollbackPlan {
    /// Steps in the order they were applied.
    pub steps: Vec<CascadeStep>,
}

impl Default for RollbackPlan {
    fn default() -> (r: Self)
        ensures
            r.steps@.len() == 0,
    {
        RollbackPlan { steps: Vec::new() }
    }
}

impl RollbackPlan {
    /// An empty plan.
    pub fn new() -> (r: Self)
        ensures
            r.steps@.len() == 0,
    {
        RollbackPlan { steps: Vec::new() }
    }

    /// Record a step as it is applied.
    pub fn record(&mut self, step: CascadeStep)
        ensures
            final(self).steps@ == old(self).steps@.push(step),
    {
        self.steps.push(step);
    }

    /// Whether the plan has no steps.
    pub fn is_empty(&self) -> (r: bool)
        ensures
            r == (self.steps@.len() == 0),
    {
        self.steps.len() == 0
    }

    /// The number of recorded steps.
    pub fn len(&self) -> (r: usize)
        ensures
            r == self.steps@.len(),
    {
        self.steps.len()
    }

    /// The inverse actions in reverse order (undo the most recent step first).
    pub fn inverse_order(&self) -> (r: Vec<String>)
        ensures
            r.deep_view() == inverses_reversed(self.steps.deep_view()),
            r@.len() == self.steps@.len(),
            forall|i: int|
                0 <= i < r@.len() ==> #[trigger] r@[i]@ == self.steps@[self.steps@.len() - 1
                    - i].inverse@,
    {
        let mut out: Vec<String> = Vec::new();
        let n = self.steps.len();
        let mut k: usize = n;
        while k > 0
            invariant
                k <= n,
                n == self.steps@.len(),
                out@.len() == n - k,
                forall|i: int| 0 <= i < out@.len() ==> #[trigger] out@[i]@ == self.steps@[n - 1 - i].inverse@,
            decreases k,
        {
            k = k - 1;
            out.push(self.steps[k].inverse.clone());
        }
        proof {
            lemma_inverses_reversed_index(self.steps.deep_view());
            assert(out.deep_view() =~= inverses_reversed(self.steps.deep_view()));
        }
        out
    }
}

/// The `i`-th inverse is the inverse of the `i`-th most recent step.
pub proof fn lemma_inverses_reversed_index(steps: Seq<(Seq<char>, Seq<char>)>)
    ensures
        inverses_reversed(steps).len() == steps.len(),
        forall|i: int|
            0 <= i < steps.len() ==> #[trigger] inverses_reversed(steps)[i] == steps[steps.len()
                - 1 - i].1,
    decreases steps.len(),
{
    if steps.len() > 0 {
        lemma_inverses_reversed_index(steps.drop_last());
        let r = inverses_reversed(steps);
        assert forall|i: int| 0 <= i < steps.len() implies #[trigger] r[i] == steps[steps.len() - 1 - i].1 by {
            if i > 0 {
                assert(r[i] == inverses_reversed(steps.drop_last())[i - 1]);
            }
        }
    }
}

/// Undo order: recording a step puts its inverse first in the rollback order,
/// ahead of the inverses of all earlier steps.
pub proof fn lemma_record_undoes_first(steps: Seq<(Seq<char>, Seq<char>)>, step: (Seq<char>, Seq<char>))
    ensures
        inverses_reversed(steps.push(step)) == seq![step.1] + inverses_reversed(steps),
{
    assert(steps.push(step).drop_last() =~= steps);
}

} // verus!

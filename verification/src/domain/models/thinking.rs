//! Structured output from an agent's THINK phase.
//!
//! `ThinkingOutput` captures the agent's local reasoning before acting: task
//! interpretation, approach, and risks. It is injected into the conversation
//! context so the LLM receives structured guidance alongside the raw input.

use vstd::prelude::*;

use super::persona::clone_strings;
use crate::text::{concat2, join, join_strings, owned};

verus! {

/// The structured result of an agent's `think()` phase.
#[derive(Debug, PartialEq, Eq)]
pub struct ThinkingOutput {
    /// How the agent interprets the task in terms of its responsibility.
    pub task_interpretation: String,
    /// The approach the agent will take (methodology, constraints).
    pub approach: String,
    /// Risks or concerns the agent identified.
    pub risks: Vec<String>,
    /// Whether the agent considers the task within its competence.
    pub within_competence: bool,
}

/// The lines of the prompt fragment for the given parts.
pub open spec fn fragment_lines(
    task_interpretation: Seq<char>,
    approach: Seq<char>,
    risks: Seq<Seq<char>>,
    within_competence: bool,
) -> Seq<Seq<char>> {
    let head = seq![
        "**Task Interpretation:** "@ + task_interpretation,
        "**Approach:** "@ + approach,
    ];
    let with_risks = if risks.len() > 0 {
        head.push("**Risks:** "@ + join(risks, "; "@))
    } else {
        head
    };
    if within_competence {
        with_risks
    } else {
        with_risks.push("**Note:** The task may be outside my primary competence."@)
    }
}

impl Clone for ThinkingOutput {
    fn clone(&self) -> (r: Self)
        ensures
            r.task_interpretation@ == self.task_interpretation@,
            r.approach@ == self.approach@,
            r.risks.deep_view() == self.risks.deep_view(),
            r.within_competence == self.within_competence,
            r.fragment() == self.fragment(),
    {
        ThinkingOutput {
            task_interpretation: self.task_interpretation.clone(),
            approach: self.approach.clone(),
            risks: clone_strings(&self.risks),
            within_competence: self.within_competence,
        }
    }
}

impl ThinkingOutput {
    /// The prompt fragment this output renders to.
    pub open spec fn fragment(&self) -> Seq<char> {
        join(
            fragment_lines(
                self.task_interpretation@,
                self.approach@,
                self.risks.deep_view(),
                self.within_competence,
            ),
            "\n"@,
        )
    }

    /// Render the thinking output as a structured prompt fragment suitable for
    /// injection into the LLM conversation context.
    pub fn as_prompt_fragment(&self) -> (r: String)
        ensures
            r@ == self.fragment(),
    {
        let mut lines: Vec<String> = Vec::new();
        lines.push(concat2("**Task Interpretation:** ", self.task_interpretation.as_str()));
        lines.push(concat2("**Approach:** ", self.approach.as_str()));
        if self.risks.len() > 0 {
            let joined = join_strings(&self.risks, "; ");
            lines.push(concat2("**Risks:** ", joined.as_str()));
        }
        if !self.within_competence {
            lines.push(owned("**Note:** The task may be outside my primary competence."));
        }
        assert(lines.deep_view() =~= fragment_lines(
            self.task_interpretation@,
            self.approach@,
            self.risks.deep_view(),
            self.within_competence,
        ));
        join_strings(&lines, "\n")
    }
}

} // verus!

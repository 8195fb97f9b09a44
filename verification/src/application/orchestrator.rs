//! Maestro meta-orchestrator: Plan, Delegate, Audit, Deliver.
//!
//! Given a user demand and the persona catalog, it drives a [`MicroProject`]
//! through the lifecycle FSM, routes personas with the deterministic matcher,
//! and delegates to them in a serial cascade. It produces an ordered list of
//! [`Signal`]s; the presentation layer maps those to IPC events. Deterministic:
//! the only outside work is what the caller's model router and deliverer do.

use vstd::prelude::*;

use crate::domain::models::fsm::{FsmStage, MicroProject};
use crate::domain::models::persona::{clone_strings, Persona, PersonaView};
use crate::domain::models::rollback::{inverses_reversed, CascadeStep, RollbackPlan};
use crate::domain::models::routing::{
    candidates, fallback_choice, is_ranked, lemma_ranked_unique, route, tokens_of, winners,
};
use crate::text::{concat2, concat3, decimal, fmt_u64, join, join_strings, owned};

verus! {

/// Safety rail: the cascade may never exceed this many steps.
pub const MAX_CASCADE_STEPS: usize = 64;

/// An orchestration observation, emitted in order.
#[derive(Debug, PartialEq, Eq)]
pub enum Signal {
    /// The FSM entered a stage.
    Stage(FsmStage),
    /// The plan Maestro proposes.
    Plan(Vec<String>),
    /// A persona changed cognitive state (`observe`/`think`/`act`/`idle`).
    Agent { persona: String, state: String },
    /// Maestro delegated a task to a persona.
    Delegation { persona: String, task: String },
    /// A persona (or Maestro) delivered a result.
    Deliverable { persona: String, summary: String },
    /// Execution is blocked awaiting a user approval.
    ApprovalRequest { id: String, prompt: String },
    /// A rollback inverse action was applied.
    Rollback { action: String },
    /// A diagnostic line.
    Log { level: String, message: String },
}

/// The abstract value of a [`Signal`].
pub enum SignalView {
    Stage(FsmStage),
    Plan(Seq<Seq<char>>),
    Agent(Seq<char>, Seq<char>),
    Delegation(Seq<char>, Seq<char>),
    Deliverable(Seq<char>, Seq<char>),
    ApprovalRequest(Seq<char>, Seq<char>),
    Rollback(Seq<char>),
    Log(Seq<char>, Seq<char>),
}

impl DeepView for Signal {
    type V = SignalView;

    open spec fn deep_view(&self) -> SignalView {
        match self {
            Signal::Stage(s) => SignalView::Stage(*s),
            Signal::Plan(lines) => SignalView::Plan(lines.deep_view()),
            Signal::Agent { persona, state } => SignalView::Agent(persona@, state@),
            Signal::Delegation { persona, task } => SignalView::Delegation(persona@, task@),
            Signal::Deliverable { persona, summary } => SignalView::Deliverable(persona@, summary@),
            Signal::ApprovalRequest { id, prompt } => SignalView::ApprovalRequest(id@, prompt@),
            Signal::Rollback { action } => SignalView::Rollback(action@),
            Signal::Log { level, message } => SignalView::Log(level@, message@),
        }
    }
}

impl Clone for Signal {
    fn clone(&self) -> (r: Self)
        ensures
            r.deep_view() == self.deep_view(),
    {
        match self {
            Signal::Stage(s) => Signal::Stage(*s),
            Signal::Plan(lines) => Signal::Plan(clone_strings(lines)),
            Signal::Agent { persona, state } => Signal::Agent {
                persona: persona.clone(),
                state: state.clone(),
            },
            Signal::Delegation { persona, task } => Signal::Delegation {
                persona: persona.clone(),
                task: task.clone(),
            },
            Signal::Deliverable { persona, summary } => Signal::Deliverable {
                persona: persona.clone(),
                summary: summary.clone(),
            },
            Signal::ApprovalRequest { id, prompt } => Signal::ApprovalRequest {
                id: id.clone(),
                prompt: prompt.clone(),
            },
            Signal::Rollback { action } => Signal::Rollback { action: action.clone() },
            Signal::Log { level, message } => Signal::Log {
                level: level.clone(),
                message: message.clone(),
            },
        }
    }
}

/// The deterministic deliverable summary used when no model is called.
pub open spec fn placeholder_text(persona: Seq<char>) -> Seq<char> {
    persona + " completed its contribution"@
}

/// The deterministic fallback deliverable (no LLM call).
pub fn placeholder_deliverable(persona: &str, model: &str, demand: &str) -> (r: String)
    ensures
        r@ == placeholder_text(persona@),
{
    concat2(persona, " completed its contribution")
}

/// Where a session stands.
#[derive(Debug, Clone, Copy, PartialEq, Eq, Structural)]
pub enum SessionState {
    /// Blocked on the plan-approval gate.
    AwaitingPlanApproval,
    /// Blocked on the execution-approval gate.
    AwaitingExecApproval,
    /// Completed successfully.
    Done,
    /// Stopped before any work (plan rejected or cascade too long).
    Aborted,
    /// Execution rejected; the rollback plan was applied.
    RolledBack,
}

// ---------------------------------------------------------------------------
// The signal streams, as functions of the session's data.
// ---------------------------------------------------------------------------

/// The lines of the plan Maestro proposes.
pub open spec fn plan_lines(demand: Seq<char>, ids: Seq<Seq<char>>, used_fallback: bool) -> Seq<Seq<char>> {
    let base = seq![
        "understand: "@ + demand,
        "route "@ + decimal(ids.len()) + " persona(s): "@ + join(ids, ", "@),
        "delegate in serial cascade"@,
        "audit deliverables"@,
        "deliver"@,
    ];
    if used_fallback {
        base.push("(no strong match \u{2014} used fallback persona)"@)
    } else {
        base
    }
}

/// The prompt of the plan-approval gate.
pub open spec fn plan_prompt(demand: Seq<char>) -> Seq<char> {
    "Approve the plan for '"@ + demand + "'?"@
}

/// The prompt of the execution-approval gate.
pub open spec fn exec_prompt(demand: Seq<char>) -> Seq<char> {
    "Approve execution of '"@ + demand + "'? A rollback plan is ready."@
}

/// What `start` emits: Ideation, Planning, the plan, Approval, the plan gate.
pub open spec fn start_signals(demand: Seq<char>, ids: Seq<Seq<char>>, used_fallback: bool) -> Seq<SignalView> {
    seq![
        SignalView::Stage(FsmStage::Ideation),
        SignalView::Stage(FsmStage::Planning),
        SignalView::Plan(plan_lines(demand, ids, used_fallback)),
        SignalView::Stage(FsmStage::Approval),
        SignalView::ApprovalRequest("approve-plan"@, plan_prompt(demand)),
    ]
}

/// The cascade step recorded for persona `p`.
pub open spec fn step_for(p: Seq<char>) -> (Seq<char>, Seq<char>) {
    ("apply "@ + p + " contribution"@, "revert "@ + p + " contribution"@)
}

/// The rollback plan recorded for the selected personas, in order.
pub open spec fn plan_steps(ids: Seq<Seq<char>>) -> Seq<(Seq<char>, Seq<char>)> {
    ids.map_values(|p: Seq<char>| step_for(p))
}

/// One `observe` signal per persona, in order.
pub open spec fn observe_signals(ids: Seq<Seq<char>>) -> Seq<SignalView> {
    ids.map_values(|p: Seq<char>| SignalView::Agent(p, "observe"@))
}

/// What approving the plan emits: Instrumentation, one `observe` per persona,
/// the rollback-plan log line and the execution gate.
pub open spec fn instrumentation_signals(demand: Seq<char>, ids: Seq<Seq<char>>) -> Seq<SignalView> {
    seq![SignalView::Stage(FsmStage::Instrumentation)] + observe_signals(ids) + seq![
        SignalView::Log("info"@, "rollback plan ready ("@ + decimal(ids.len()) + " step(s))"@),
        SignalView::ApprovalRequest("approve-exec"@, exec_prompt(demand)),
    ]
}

/// The task Maestro delegates to a persona running on `model`.
pub open spec fn task_text(demand: Seq<char>, model: Seq<char>) -> Seq<char> {
    "address '"@ + demand + "' ["@ + model + "]"@
}

/// The signals of one persona's turn in the cascade.
pub open spec fn turn_signals(p: Seq<char>, model: Seq<char>, demand: Seq<char>, summary: Seq<char>) -> Seq<SignalView> {
    seq![
        SignalView::Agent(p, "think"@),
        SignalView::Agent(p, "act"@),
        SignalView::Delegation(p, task_text(demand, model)),
        SignalView::Deliverable(p, summary),
        SignalView::Agent(p, "idle"@),
    ]
}

/// The serial cascade: each persona's turn, in order.
pub open spec fn cascade_signals(
    ids: Seq<Seq<char>>,
    models: Seq<Seq<char>>,
    summaries: Seq<Seq<char>>,
    demand: Seq<char>,
) -> Seq<SignalView>
    decreases ids.len(),
{
    if ids.len() == 0 {
        Seq::empty()
    } else {
        let k = ids.len() - 1;
        cascade_signals(ids.drop_last(), models, summaries, demand) + turn_signals(
            ids[k],
            models[k],
            demand,
            summaries[k],
        )
    }
}

/// Maestro's own closing summary.
pub open spec fn maestro_summary(demand: Seq<char>, n: nat) -> Seq<char> {
    "delivered '"@ + demand + "' via "@ + decimal(n) + " persona(s)"@
}

/// What approving execution emits: Execution, the cascade, Verification and
/// Maestro's deliverable.
pub open spec fn execution_signals(
    ids: Seq<Seq<char>>,
    models: Seq<Seq<char>>,
    summaries: Seq<Seq<char>>,
    demand: Seq<char>,
) -> Seq<SignalView> {
    seq![SignalView::Stage(FsmStage::Execution)] + cascade_signals(ids, models, summaries, demand)
        + seq![
        SignalView::Stage(FsmStage::Verification),
        SignalView::Deliverable("Maestro"@, maestro_summary(demand, ids.len())),
    ]
}

/// The recorded deliverables after execution.
pub open spec fn deliverable_lines(ids: Seq<Seq<char>>, summaries: Seq<Seq<char>>, demand: Seq<char>) -> Seq<Seq<char>> {
    Seq::new(ids.len(), |i: int| ids[i] + ": "@ + summaries[i]).push(
        "Maestro: "@ + maestro_summary(demand, ids.len()),
    )
}

/// What a cascade over the safety limit emits.
pub open spec fn too_long_signals(n: nat) -> Seq<SignalView> {
    seq![SignalView::Log("error"@, "cascade of "@ + decimal(n) + " exceeds the 64-step safety limit"@)]
}

/// What rejecting execution emits: a warning, then each inverse action, most
/// recent step first.
pub open spec fn rollback_signals(steps: Seq<(Seq<char>, Seq<char>)>) -> Seq<SignalView> {
    seq![SignalView::Log("warn"@, "execution rejected \u{2014} rolling back"@)] + inverses_reversed(
        steps,
    ).map_values(|a: Seq<char>| SignalView::Rollback(a))
}

/// What aborting for `reason` emits.
pub open spec fn abort_signals(reason: Seq<char>) -> Seq<SignalView> {
    seq![SignalView::Log("warn"@, reason + " \u{2014} aborting run"@)]
}

/// The state after answering the current gate.
pub open spec fn next_state(s: SessionState, approved: bool, too_long: bool) -> SessionState {
    match s {
        SessionState::AwaitingPlanApproval => if approved {
            SessionState::AwaitingExecApproval
        } else {
            SessionState::Aborted
        },
        SessionState::AwaitingExecApproval => if !approved {
            SessionState::RolledBack
        } else if too_long {
            SessionState::Aborted
        } else {
            SessionState::Done
        },
        _ => s,
    }
}

/// `f` can return `s` as the deliverable of persona `p` on `model` for `demand`.
pub open spec fn delivers<F: Fn(&str, &str, &str) -> String>(
    f: F,
    p: Seq<char>,
    model: Seq<char>,
    demand: Seq<char>,
    s: Seq<char>,
) -> bool {
    exists|a: &str, b: &str, c: &str, out: String|
        a@ == p && b@ == model && c@ == demand && out@ == s && #[trigger] f.ensures((a, b, c), out)
}

/// `f` can return `m` as the model of persona `p`.
pub open spec fn routes_model<F: Fn(&str) -> String>(f: F, p: Seq<char>, m: Seq<char>) -> bool {
    exists|a: &str, out: String| a@ == p && out@ == m && #[trigger] f.ensures((a,), out)
}

/// `ids` is what routing selects for this demand among these personas, and
/// `used_fallback` whether it fell back.
pub open spec fn routes_to(
    demand: Seq<char>,
    personas: Seq<PersonaView>,
    ids: Seq<Seq<char>>,
    used_fallback: bool,
) -> bool {
    exists|ranked: Seq<(Seq<char>, u32)>|
        #![trigger is_ranked(ranked)]
        {
            &&& is_ranked(ranked)
            &&& ranked.to_multiset() == candidates(personas, tokens_of(demand)).to_multiset()
            &&& used_fallback == (winners(ranked).len() == 0)
            &&& ids == if used_fallback {
                fallback_choice(ranked)
            } else {
                winners(ranked)
            }
        }
}

/// A resumable, gated orchestration. Drives a [`MicroProject`] but pauses at
/// the Approval and Execution gates until the user responds; never assumes
/// consent.
#[derive(Debug)]
pub struct Session {
    project: MicroProject,
    demand: String,
    /// Selected personas paired with their resolved model.
    selected: Vec<(String, String)>,
    state: SessionState,
    rollback: RollbackPlan,
    deliverables: Vec<String>,
}

impl Session {
    /// Id of the plan-approval gate.
    pub const PLAN_APPROVAL_ID: &'static str = "approve-plan";

    /// Id of the execution-approval gate.
    pub const EXEC_APPROVAL_ID: &'static str = "approve-exec";

    /// The selected persona ids, in cascade order.
    pub closed spec fn ids(&self) -> Seq<Seq<char>> {
        self.selected@.map_values(|e: (String, String)| e.0@)
    }

    /// The model resolved for each selected persona.
    pub closed spec fn models(&self) -> Seq<Seq<char>> {
        self.selected@.map_values(|e: (String, String)| e.1@)
    }

    /// Where the session stands.
    pub closed spec fn state(&self) -> SessionState {
        self.state
    }

    /// The lifecycle stage of the underlying micro-project.
    pub closed spec fn stage(&self) -> FsmStage {
        self.project.stage
    }

    /// The originating demand.
    pub closed spec fn demand_text(&self) -> Seq<char> {
        self.demand@
    }

    /// The recorded deliverables.
    pub closed spec fn delivered(&self) -> Seq<Seq<char>> {
        self.deliverables.deep_view()
    }

    /// The recorded rollback plan (forward and inverse action per step).
    pub closed spec fn steps(&self) -> Seq<(Seq<char>, Seq<char>)> {
        self.rollback.steps.deep_view()
    }

    /// The session's internal consistency: each gate sits at its stage, and
    /// nothing has been delivered before execution.
    pub open spec fn wf(&self) -> bool {
        &&& self.state() == SessionState::AwaitingPlanApproval ==> {
            &&& self.stage() == FsmStage::Approval
            &&& self.steps().len() == 0
            &&& self.delivered().len() == 0
        }
        &&& self.state() == SessionState::AwaitingExecApproval ==> {
            &&& self.stage() == FsmStage::Instrumentation
            &&& self.steps() == plan_steps(self.ids())
            &&& self.delivered().len() == 0
        }
    }

    /// Begin a run: Ideation, then Planning, then block at the Approval gate.
    pub fn start<F: Fn(&str) -> String>(demand: &str, personas: &[Persona], model_for: F) -> (r: (
        Self,
        Vec<Signal>,
    ))
        requires
            forall|p: &str| #[trigger] model_for.requires((p,)),
        ensures
            r.0.wf(),
            r.0.state() == SessionState::AwaitingPlanApproval,
            r.0.stage() == FsmStage::Approval,
            r.0.demand_text() == demand@,
            r.0.delivered().len() == 0,
            r.0.ids().len() == r.0.models().len(),
            forall|i: int| 0 <= i < r.0.ids().len() ==> routes_model(model_for, #[trigger] r.0.ids()[i], r.0.models()[i]),
            exists|used_fallback: bool|
                #![trigger plan_lines(demand@, r.0.ids(), used_fallback)]
                routes_to(demand@, personas.deep_view(), r.0.ids(), used_fallback) && r.1.deep_view()
                    == start_signals(demand@, r.0.ids(), used_fallback),
    {
        let mut project = MicroProject::new("mp-1", demand);
        let mut signals: Vec<Signal> = Vec::new();
        push_signal(&mut signals, Signal::Stage(project.stage));
        advance(&mut project, &mut signals);
        let routing = route(demand, personas);
        let ghost ranked = routing.ranked.deep_view();
        let mut selected: Vec<(String, String)> = Vec::new();
        let mut i: usize = 0;
        while i < routing.selected.len()
            invariant
                i <= routing.selected@.len(),
                selected@.len() == i,
                forall|p: &str| #[trigger] model_for.requires((p,)),
                forall|j: int| 0 <= j < i ==> (#[trigger] selected@[j]).0@ == routing.selected@[j]@
                    && routes_model(model_for, selected@[j].0@, selected@[j].1@),
            decreases routing.selected.len() - i,
        {
            let p = routing.selected[i].as_str();
            let m = model_for(p);
            assert(routes_model(model_for, p@, m@));
            selected.push((owned(p), m));
            i = i + 1;
        }
        let ghost ids = selected@.map_values(|e: (String, String)| e.0@);
        assert(ids =~= routing.selected.deep_view());
        let mut plan: Vec<String> = Vec::new();
        plan.push(concat2("understand: ", demand));
        let count = fmt_u64(selected.len() as u64);
        let names = join_strings(&routing.selected, ", ");
        let mut route_line = concat3("route ", count.as_str(), " persona(s): ");
        route_line.append(names.as_str());
        plan.push(route_line);
        plan.push(owned("delegate in serial cascade"));
        plan.push(owned("audit deliverables"));
        plan.push(owned("deliver"));
        if routing.used_fallback {
            plan.push(owned("(no strong match \u{2014} used fallback persona)"));
        }
        assert(plan.deep_view() =~= plan_lines(demand@, ids, routing.used_fallback));
        push_signal(&mut signals, Signal::Plan(plan));
        advance(&mut project, &mut signals);
        push_signal(&mut signals, 
            Signal::ApprovalRequest {
                id: owned(Self::PLAN_APPROVAL_ID),
                prompt: concat3("Approve the plan for '", demand, "'?"),
            },
        );
        let session = Session {
            project,
            demand: owned(demand),
            selected,
            state: SessionState::AwaitingPlanApproval,
            rollback: RollbackPlan::new(),
            deliverables: Vec::new(),
        };
        proof {
            reveal_strlit("approve-plan");
            assert(session.ids() == ids);
            assert(routes_to(demand@, personas.deep_view(), ids, routing.used_fallback));
            assert(signals.deep_view() =~= start_signals(demand@, ids, routing.used_fallback));
            assert(session.delivered() =~= Seq::<Seq<char>>::empty());
            assert(session.steps() =~= Seq::<(Seq<char>, Seq<char>)>::empty());
        }
        (session, signals)
    }

    /// Whether the session is blocked on an approval gate.
    pub fn is_pending(&self) -> (r: bool)
        ensures
            r == (self.state() == SessionState::AwaitingPlanApproval || self.state()
                == SessionState::AwaitingExecApproval),
    {
        match self.state {
            SessionState::AwaitingPlanApproval => true,
            SessionState::AwaitingExecApproval => true,
            _ => false,
        }
    }

    /// Whether the session completed successfully.
    pub fn is_done(&self) -> (r: bool)
        ensures
            r == (self.state() == SessionState::Done),
    {
        self.state == SessionState::Done
    }

    /// Whether the session is blocked specifically on the execution gate.
    pub fn awaiting_execution(&self) -> (r: bool)
        ensures
            r == (self.state() == SessionState::AwaitingExecApproval),
    {
        self.state == SessionState::AwaitingExecApproval
    }

    /// The originating demand.
    pub fn demand(&self) -> (r: &str)
        ensures
            r@ == self.demand_text(),
    {
        self.demand.as_str()
    }

    /// The recorded deliverables (available once execution completes).
    pub fn deliverables(&self) -> (r: &[String])
        ensures
            r@.map_values(|s: String| s@) == self.delivered(),
    {
        self.deliverables.as_slice()
    }

    /// Respond to the current gate; advances or rolls back accordingly.
    /// `deliver` produces each persona's deliverable during execution.
    pub fn resume<F: Fn(&str, &str, &str) -> String>(&mut self, approved: bool, deliver: &F) -> (r: Vec<Signal>)
        requires
            old(self).wf(),
            forall|a: &str, b: &str, c: &str| #[trigger] deliver.requires((a, b, c)),
        ensures
            final(self).wf(),
            final(self).ids() == old(self).ids(),
            final(self).models() == old(self).models(),
            final(self).demand_text() == old(self).demand_text(),
            final(self).state() == next_state(
                old(self).state(),
                approved,
                old(self).ids().len() > MAX_CASCADE_STEPS,
            ),
            ({
                let ids = old(self).ids();
                let models = old(self).models();
                let demand = old(self).demand_text();
                match old(self).state() {
                    SessionState::AwaitingPlanApproval => if approved {
                        &&& r.deep_view() == instrumentation_signals(demand, ids)
                        &&& final(self).stage() == FsmStage::Instrumentation
                        &&& final(self).steps() == plan_steps(ids)
                        &&& final(self).delivered().len() == 0
                    } else {
                        &&& r.deep_view() == abort_signals("plan rejected"@)
                        &&& final(self).stage() == old(self).stage()
                        &&& final(self).delivered().len() == 0
                    },
                    SessionState::AwaitingExecApproval => if !approved {
                        &&& r.deep_view() == rollback_signals(old(self).steps())
                        &&& final(self).stage() == old(self).stage()
                        &&& final(self).delivered().len() == 0
                    } else if ids.len() > MAX_CASCADE_STEPS {
                        &&& r.deep_view() == too_long_signals(ids.len())
                        &&& final(self).stage() == old(self).stage()
                        &&& final(self).delivered().len() == 0
                    } else {
                        exists|summaries: Seq<Seq<char>>|
                            #![trigger execution_signals(ids, models, summaries, demand)]
                            {
                                &&& summaries.len() == ids.len()
                                &&& forall|i: int|
                                    0 <= i < ids.len() ==> delivers(
                                        *deliver,
                                        #[trigger] ids[i],
                                        models[i],
                                        demand,
                                        summaries[i],
                                    )
                                &&& r.deep_view() == execution_signals(ids, models, summaries, demand)
                                &&& final(self).delivered() == deliverable_lines(ids, summaries, demand)
                                &&& final(self).stage() == FsmStage::Verification
                            }
                    },
                    _ => r.deep_view() == Seq::<SignalView>::empty() && final(self).stage()
                        == old(self).stage() && final(self).delivered() == old(self).delivered(),
                }
            }),
    {
        match self.state {
            SessionState::AwaitingPlanApproval => {
                if approved {
                    self.enter_instrumentation()
                } else {
                    self.abort("plan rejected")
                }
            },
            SessionState::AwaitingExecApproval => {
                if approved {
                    self.execute(deliver)
                } else {
                    self.roll_back()
                }
            },
            _ => Vec::new(),
        }
    }

    /// Plan approved: Instrumentation, build the rollback plan, block at the
    /// Execution gate.
    fn enter_instrumentation(&mut self) -> (r: Vec<Signal>)
        requires
            old(self).wf(),
            old(self).state() == SessionState::AwaitingPlanApproval,
        ensures
            final(self).wf(),
            final(self).selected == old(self).selected,
            final(self).demand == old(self).demand,
            final(self).state() == SessionState::AwaitingExecApproval,
            r.deep_view() == instrumentation_signals(old(self).demand_text(), old(self).ids()),
            final(self).stage() == FsmStage::Instrumentation,
            final(self).delivered().len() == 0,
    {
        let ghost ids = self.ids();
        let mut signals: Vec<Signal> = Vec::new();
        advance(&mut self.project, &mut signals);
        let n = self.selected.len();
        let mut i: usize = 0;
        while i < n
            invariant
                n == self.selected@.len(),
                ids == self.ids(),
                i <= n,
                self.selected == old(self).selected,
                self.demand == old(self).demand,
                self.state == old(self).state,
                self.project.stage == FsmStage::Instrumentation,
                self.deliverables == old(self).deliverables,
                signals.deep_view() == seq![SignalView::Stage(FsmStage::Instrumentation)]
                    + observe_signals(ids.subrange(0, i as int)),
                self.steps() == plan_steps(ids.subrange(0, i as int)),
            decreases n - i,
        {
            let persona = self.selected[i].0.as_str();
            push_signal(&mut signals, Signal::Agent { persona: owned(persona), state: owned("observe") });
            let forward = concat3("apply ", persona, " contribution");
            let inverse = concat3("revert ", persona, " contribution");
            let ghost steps_before = self.steps();
            let step = CascadeStep::new(forward.as_str(), inverse.as_str());
            assert(step.deep_view() == step_for(persona@));
            self.rollback.record(step);
            proof {
                assert(self.steps() =~= steps_before.push(step_for(persona@)));
                assert(ids[i as int] == persona@);
                assert(ids.subrange(0, i + 1) =~= ids.subrange(0, i as int).push(persona@));
                assert(observe_signals(ids.subrange(0, i + 1)) =~= observe_signals(
                    ids.subrange(0, i as int),
                ).push(SignalView::Agent(persona@, "observe"@)));
                assert(self.steps() =~= plan_steps(ids.subrange(0, i + 1)));
            }
            i = i + 1;
        }
        let count = fmt_u64(self.rollback.len() as u64);
        push_signal(&mut signals, 
            Signal::Log {
                level: owned("info"),
                message: concat3("rollback plan ready (", count.as_str(), " step(s))"),
            },
        );
        let prompt = concat3("Approve execution of '", self.demand.as_str(), "'? A rollback plan is ready.");
        push_signal(&mut signals, Signal::ApprovalRequest { id: owned(Self::EXEC_APPROVAL_ID), prompt });
        self.state = SessionState::AwaitingExecApproval;
        proof {
            reveal_strlit("approve-exec");
            assert(ids.subrange(0, n as int) =~= ids);
            assert(signals.deep_view() =~= instrumentation_signals(old(self).demand_text(), ids));
        }
        signals
    }

    /// Execution approved: serial cascade, Verification, deliver.
    fn execute<F: Fn(&str, &str, &str) -> String>(&mut self, deliver: &F) -> (r: Vec<Signal>)
        requires
            old(self).wf(),
            old(self).state() == SessionState::AwaitingExecApproval,
            forall|a: &str, b: &str, c: &str| #[trigger] deliver.requires((a, b, c)),
        ensures
            final(self).wf(),
            final(self).selected == old(self).selected,
            final(self).demand == old(self).demand,
            final(self).state() == next_state(
                old(self).state(),
                true,
                old(self).ids().len() > MAX_CASCADE_STEPS,
            ),
            old(self).ids().len() > MAX_CASCADE_STEPS ==> {
                &&& r.deep_view() == too_long_signals(old(self).ids().len())
                &&& final(self).stage() == old(self).stage()
                &&& final(self).delivered().len() == 0
            },
            old(self).ids().len() <= MAX_CASCADE_STEPS ==> exists|summaries: Seq<Seq<char>>|
                #![trigger execution_signals(old(self).ids(), old(self).models(), summaries, old(self).demand_text())]
                {
                    &&& summaries.len() == old(self).ids().len()
                    &&& forall|i: int|
                        0 <= i < old(self).ids().len() ==> delivers(
                            *deliver,
                            #[trigger] old(self).ids()[i],
                            old(self).models()[i],
                            old(self).demand_text(),
                            summaries[i],
                        )
                    &&& r.deep_view() == execution_signals(
                        old(self).ids(),
                        old(self).models(),
                        summaries,
                        old(self).demand_text(),
                    )
                    &&& final(self).delivered() == deliverable_lines(
                        old(self).ids(),
                        summaries,
                        old(self).demand_text(),
                    )
                    &&& final(self).stage() == FsmStage::Verification
                },
    {
        let ghost ids = self.ids();
        let ghost models = self.models();
        let ghost demand = self.demand_text();
        let n = self.selected.len();
        if n > MAX_CASCADE_STEPS {
            self.state = SessionState::Aborted;
            let count = fmt_u64(n as u64);
            let mut signals: Vec<Signal> = Vec::new();
            push_signal(&mut signals, 
                Signal::Log {
                    level: owned("error"),
                    message: concat3("cascade of ", count.as_str(), " exceeds the 64-step safety limit"),
                },
            );
            assert(signals.deep_view() =~= too_long_signals(ids.len()));
            return signals;
        }
        let mut signals: Vec<Signal> = Vec::new();
        advance(&mut self.project, &mut signals);
        let ghost mut summaries: Seq<Seq<char>> = Seq::empty();
        let mut i: usize = 0;
        while i < n
            invariant
                n == self.selected@.len(),
                n <= MAX_CASCADE_STEPS,
                ids == self.ids(),
                models == self.models(),
                demand == self.demand_text(),
                i <= n,
                self.selected == old(self).selected,
                self.demand == old(self).demand,
                self.state == old(self).state,
                self.rollback == old(self).rollback,
                self.project.stage == FsmStage::Execution,
                forall|a: &str, b: &str, c: &str| #[trigger] deliver.requires((a, b, c)),
                summaries.len() == i,
                forall|j: int|
                    0 <= j < i ==> delivers(*deliver, #[trigger] ids[j], models[j], demand, summaries[j]),
                signals.deep_view() == seq![SignalView::Stage(FsmStage::Execution)] + cascade_signals(
                    ids.subrange(0, i as int),
                    models,
                    summaries,
                    demand,
                ),
                self.delivered() == Seq::new(i as nat, |j: int| ids[j] + ": "@ + summaries[j]),
            decreases n - i,
        {
            let persona = self.selected[i].0.as_str();
            let model = self.selected[i].1.as_str();
            let ghost before = signals.deep_view();
            let ghost delivered_before = self.delivered();
            let ghost summaries_before = summaries;
            push_signal(&mut signals, Signal::Agent { persona: owned(persona), state: owned("think") });
            push_signal(&mut signals, Signal::Agent { persona: owned(persona), state: owned("act") });
            let mut task = concat3("address '", self.demand.as_str(), "' [");
            task.append(model);
            task.append("]");
            push_signal(&mut signals, Signal::Delegation { persona: owned(persona), task });
            let summary = deliver(persona, model, self.demand.as_str());
            proof {
                assert(delivers(*deliver, persona@, model@, demand, summary@));
                summaries = summaries.push(summary@);
            }
            let line = concat3(persona, ": ", summary.as_str());
            let ghost line_view = line@;
            self.deliverables.push(line);
            let ghost summary_view = summary@;
            push_signal(&mut signals, Signal::Deliverable { persona: owned(persona), summary });
            push_signal(&mut signals, Signal::Agent { persona: owned(persona), state: owned("idle") });
            proof {
                assert(self.delivered() =~= delivered_before.push(line_view));
                assert(signals.deep_view() =~= before + turn_signals(persona@, model@, demand, summary_view));
                assert(ids[i as int] == persona@);
                assert(models[i as int] == model@);
                let pre = ids.subrange(0, i as int);
                let next = ids.subrange(0, i + 1);
                assert(next.drop_last() =~= pre);
                assert(cascade_signals(pre, models, summaries, demand) =~= cascade_signals(
                    pre,
                    models,
                    summaries.drop_last(),
                    demand,
                )) by {
                    lemma_cascade_prefix(pre, models, summaries.drop_last(), summaries, demand);
                }
                assert(summaries.drop_last() =~= summaries_before);
                assert(summaries[i as int] == summary_view);
                assert(next[i as int] == persona@);
                assert(cascade_signals(next, models, summaries, demand) == cascade_signals(
                    pre,
                    models,
                    summaries,
                    demand,
                ) + turn_signals(persona@, model@, demand, summary_view));
                assert(signals.deep_view() =~= seq![SignalView::Stage(FsmStage::Execution)]
                    + cascade_signals(next, models, summaries, demand));
                assert(self.delivered() =~= Seq::new((i + 1) as nat, |j: int| ids[j] + ": "@ + summaries[j]));
                assert forall|j: int| 0 <= j < i + 1 implies delivers(
                    *deliver,
                    #[trigger] ids[j],
                    models[j],
                    demand,
                    summaries[j],
                ) by {}
            }
            i = i + 1;
        }
        advance(&mut self.project, &mut signals);
        let count = fmt_u64(n as u64);
        let mut summary = concat3("delivered '", self.demand.as_str(), "' via ");
        summary.append(count.as_str());
        summary.append(" persona(s)");
        self.deliverables.push(concat2("Maestro: ", summary.as_str()));
        push_signal(&mut signals, Signal::Deliverable { persona: owned("Maestro"), summary });
        self.state = SessionState::Done;
        proof {
            assert(ids.subrange(0, n as int) =~= ids);
            assert(signals.deep_view() =~= execution_signals(ids, models, summaries, demand));
            assert(self.delivered() =~= deliverable_lines(ids, summaries, demand));
        }
        signals
    }

    /// Execution rejected: apply the rollback plan (inverses, reverse order).
    fn roll_back(&mut self) -> (r: Vec<Signal>)
        requires
            old(self).wf(),
            old(self).state() == SessionState::AwaitingExecApproval,
        ensures
            final(self).wf(),
            final(self).selected == old(self).selected,
            final(self).demand == old(self).demand,
            final(self).project == old(self).project,
            final(self).deliverables == old(self).deliverables,
            final(self).state() == SessionState::RolledBack,
            r.deep_view() == rollback_signals(old(self).steps()),
    {
        let mut signals: Vec<Signal> = Vec::new();
        push_signal(&mut signals, 
            Signal::Log {
                level: owned("warn"),
                message: owned("execution rejected \u{2014} rolling back"),
            },
        );
        let actions = self.rollback.inverse_order();
        let n = actions.len();
        let mut i: usize = 0;
        while i < n
            invariant
                n == actions@.len(),
                i <= n,
                signals.deep_view() == seq![SignalView::Log("warn"@, "execution rejected \u{2014} rolling back"@)]
                    + actions.deep_view().subrange(0, i as int).map_values(|a: Seq<char>| SignalView::Rollback(a)),
            decreases n - i,
        {
            push_signal(&mut signals, Signal::Rollback { action: actions[i].clone() });
            proof {
                assert(actions.deep_view().subrange(0, i + 1).map_values(|a: Seq<char>| SignalView::Rollback(a))
                    =~= actions.deep_view().subrange(0, i as int).map_values(|a: Seq<char>| SignalView::Rollback(a)).push(
                    SignalView::Rollback(actions@[i as int]@),
                ));
            }
            i = i + 1;
        }
        self.state = SessionState::RolledBack;
        proof {
            assert(actions.deep_view().subrange(0, n as int) =~= actions.deep_view());
            assert(signals.deep_view() =~= rollback_signals(old(self).steps()));
        }
        signals
    }

    /// Plan rejected before any work: abort with no side effects.
    fn abort(&mut self, reason: &str) -> (r: Vec<Signal>)
        requires
            old(self).wf(),
        ensures
            final(self).wf(),
            final(self).selected == old(self).selected,
            final(self).demand == old(self).demand,
            final(self).project == old(self).project,
            final(self).deliverables == old(self).deliverables,
            final(self).state() == SessionState::Aborted,
            r.deep_view() == abort_signals(reason@),
    {
        self.state = SessionState::Aborted;
        let mut signals: Vec<Signal> = Vec::new();
        push_signal(&mut signals, 
            Signal::Log { level: owned("warn"), message: concat2(reason, " \u{2014} aborting run") },
        );
        assert(signals.deep_view() =~= abort_signals(reason@));
        signals
    }
}

/// `s` without its approval requests.
pub open spec fn drop_approvals(s: Seq<SignalView>) -> Seq<SignalView>
    decreases s.len(),
{
    if s.len() == 0 {
        Seq::empty()
    } else if s.last() is ApprovalRequest {
        drop_approvals(s.drop_last())
    } else {
        drop_approvals(s.drop_last()).push(s.last())
    }
}

/// The placeholder summaries of `ids`.
pub open spec fn placeholder_summaries(ids: Seq<Seq<char>>) -> Seq<Seq<char>> {
    ids.map_values(|p: Seq<char>| placeholder_text(p))
}

/// A whole run with both gates approved and placeholder deliverables, the
/// approval requests left out.
pub open spec fn auto_run(
    demand: Seq<char>,
    ids: Seq<Seq<char>>,
    models: Seq<Seq<char>>,
    used_fallback: bool,
) -> Seq<SignalView> {
    drop_approvals(
        start_signals(demand, ids, used_fallback) + instrumentation_signals(demand, ids) + if ids.len()
            > MAX_CASCADE_STEPS {
            too_long_signals(ids.len())
        } else {
            execution_signals(ids, models, placeholder_summaries(ids), demand)
        },
    )
}

/// Leaving out approvals distributes over concatenation.
pub proof fn lemma_drop_approvals_append(a: Seq<SignalView>, b: Seq<SignalView>)
    ensures
        drop_approvals(a + b) == drop_approvals(a) + drop_approvals(b),
    decreases b.len(),
{
    if b.len() == 0 {
        assert(a + b =~= a);
        assert(drop_approvals(a) + drop_approvals(b) =~= drop_approvals(a));
    } else {
        lemma_drop_approvals_append(a, b.drop_last());
        assert((a + b).drop_last() =~= a + b.drop_last());
        assert((a + b).last() == b.last());
        if b.last() is ApprovalRequest {
        } else {
            assert(drop_approvals(a) + drop_approvals(b.drop_last()).push(b.last()) =~= (
            drop_approvals(a) + drop_approvals(b.drop_last())).push(b.last()));
        }
    }
}

/// Append the signals of `src` that are not approval requests.
fn append_without_approvals(out: &mut Vec<Signal>, src: &Vec<Signal>)
    ensures
        final(out).deep_view() == old(out).deep_view() + drop_approvals(src.deep_view()),
{
    let n = src.len();
    let mut i: usize = 0;
    while i < n
        invariant
            n == src@.len(),
            i <= n,
            out.deep_view() == old(out).deep_view() + drop_approvals(src.deep_view().subrange(0, i as int)),
        decreases n - i,
    {
        let ghost sub = src.deep_view().subrange(0, i + 1);
        assert(sub.drop_last() =~= src.deep_view().subrange(0, i as int));
        assert(sub.last() == src@[i as int].deep_view());
        match &src[i] {
            Signal::ApprovalRequest { .. } => {},
            _ => {
                let ghost before = out.deep_view();
                push_signal(out, src[i].clone());
                assert(out.deep_view() =~= old(out).deep_view() + drop_approvals(sub));
            },
        }
        i = i + 1;
    }
    assert(src.deep_view().subrange(0, n as int) =~= src.deep_view());
}

/// Orchestrate a demand into an ordered signal stream with both gates approved
/// and the default deliverables. Runs without a user at the gates use it; the
/// gated [`Session`] drives the interactive path.
pub fn orchestrate<F: Fn(&str) -> String>(demand: &str, personas: &[Persona], model_for: F) -> (r: Vec<Signal>)
    requires
        forall|p: &str| #[trigger] model_for.requires((p,)),
    ensures
        exists|ids: Seq<Seq<char>>, models: Seq<Seq<char>>, used_fallback: bool|
            #![trigger auto_run(demand@, ids, models, used_fallback)]
            {
                &&& routes_to(demand@, personas.deep_view(), ids, used_fallback)
                &&& ids.len() == models.len()
                &&& forall|i: int| 0 <= i < ids.len() ==> routes_model(model_for, #[trigger] ids[i], models[i])
                &&& r.deep_view() == auto_run(demand@, ids, models, used_fallback)
            },
{
    let (mut session, first) = Session::start(demand, personas, model_for);
    let ghost ids = session.ids();
    let ghost models = session.models();
    let ghost used_fallback = choose|fb: bool|
        #![trigger plan_lines(demand@, ids, fb)]
        routes_to(demand@, personas.deep_view(), ids, fb) && first.deep_view() == start_signals(
            demand@,
            ids,
            fb,
        );
    let second = session.resume(true, &placeholder_deliverable);
    let third = session.resume(true, &placeholder_deliverable);
    proof {
        if ids.len() <= MAX_CASCADE_STEPS {
            let summaries = choose|summaries: Seq<Seq<char>>|
                #![trigger execution_signals(ids, models, summaries, demand@)]
                {
                    &&& summaries.len() == ids.len()
                    &&& forall|i: int|
                        0 <= i < ids.len() ==> delivers(
                            placeholder_deliverable,
                            #[trigger] ids[i],
                            models[i],
                            demand@,
                            summaries[i],
                        )
                    &&& third.deep_view() == execution_signals(ids, models, summaries, demand@)
                    &&& session.delivered() == deliverable_lines(ids, summaries, demand@)
                    &&& session.stage() == FsmStage::Verification
                };
            assert forall|i: int| 0 <= i < ids.len() implies summaries[i] == placeholder_text(#[trigger] ids[i]) by {
                assert(delivers(placeholder_deliverable, ids[i], models[i], demand@, summaries[i]));
                let (a, b, c, out) = choose|a: &str, b: &str, c: &str, out: String|
                    a@ == ids[i] && b@ == models[i] && c@ == demand@ && out@ == summaries[i]
                        && #[trigger] placeholder_deliverable.ensures((a, b, c), out);
                assert(out@ == placeholder_text(a@));
            }
            assert(summaries =~= placeholder_summaries(ids));
        }
    }
    let mut out: Vec<Signal> = Vec::new();
    append_without_approvals(&mut out, &first);
    append_without_approvals(&mut out, &second);
    append_without_approvals(&mut out, &third);
    proof {
        let tail = if ids.len() > MAX_CASCADE_STEPS {
            too_long_signals(ids.len())
        } else {
            execution_signals(ids, models, placeholder_summaries(ids), demand@)
        };
        assert(third.deep_view() == tail);
        lemma_drop_approvals_append(first.deep_view(), second.deep_view());
        lemma_drop_approvals_append(first.deep_view() + second.deep_view(), third.deep_view());
        assert(Seq::<SignalView>::empty() + drop_approvals(first.deep_view()) + drop_approvals(
            second.deep_view(),
        ) + drop_approvals(third.deep_view()) =~= drop_approvals(
            first.deep_view() + second.deep_view() + third.deep_view(),
        ));
        assert(out.deep_view() =~= auto_run(demand@, ids, models, used_fallback));
    }
    out
}

/// The cascade over a prefix of personas only reads the summaries of that
/// prefix.
pub proof fn lemma_cascade_prefix(
    ids: Seq<Seq<char>>,
    models: Seq<Seq<char>>,
    s1: Seq<Seq<char>>,
    s2: Seq<Seq<char>>,
    demand: Seq<char>,
)
    requires
        ids.len() <= s1.len(),
        ids.len() <= s2.len(),
        forall|j: int| 0 <= j < ids.len() ==> s1[j] == s2[j],
    ensures
        cascade_signals(ids, models, s1, demand) == cascade_signals(ids, models, s2, demand),
    decreases ids.len(),
{
    if ids.len() > 0 {
        lemma_cascade_prefix(ids.drop_last(), models, s1, s2, demand);
    }
}

// ---------------------------------------------------------------------------
// Laws of the orchestration.
// ---------------------------------------------------------------------------

/// The lifecycle stages announced by `s`, in order.
pub open spec fn stages_of(s: Seq<SignalView>) -> Seq<FsmStage>
    decreases s.len(),
{
    if s.len() == 0 {
        Seq::empty()
    } else {
        match s.last() {
            SignalView::Stage(st) => stages_of(s.drop_last()).push(st),
            _ => stages_of(s.drop_last()),
        }
    }
}

/// Stage announcements of a concatenation are those of each part, in order.
pub proof fn lemma_stages_append(a: Seq<SignalView>, b: Seq<SignalView>)
    ensures
        stages_of(a + b) == stages_of(a) + stages_of(b),
    decreases b.len(),
{
    if b.len() == 0 {
        assert(a + b =~= a);
        assert(stages_of(a) + stages_of(b) =~= stages_of(a));
    } else {
        lemma_stages_append(a, b.drop_last());
        assert((a + b).drop_last() =~= a + b.drop_last());
        assert((a + b).last() == b.last());
        match b.last() {
            SignalView::Stage(st) => {
                assert(stages_of(a) + stages_of(b.drop_last()).push(st) =~= (stages_of(a) + stages_of(
                    b.drop_last(),
                )).push(st));
            },
            _ => {},
        }
    }
}

/// Leaving out approval requests keeps every stage announcement.
pub proof fn lemma_stages_drop_approvals(s: Seq<SignalView>)
    ensures
        stages_of(drop_approvals(s)) == stages_of(s),
    decreases s.len(),
{
    if s.len() > 0 {
        lemma_stages_drop_approvals(s.drop_last());
        if !(s.last() is ApprovalRequest) {
            let d = drop_approvals(s.drop_last());
            assert(d.push(s.last()).drop_last() =~= d);
        }
    }
}

/// Persona signals announce no stage.
proof fn lemma_observe_no_stages(ids: Seq<Seq<char>>)
    ensures
        stages_of(observe_signals(ids)) == Seq::<FsmStage>::empty(),
    decreases ids.len(),
{
    if ids.len() > 0 {
        lemma_observe_no_stages(ids.drop_last());
        assert(observe_signals(ids).drop_last() =~= observe_signals(ids.drop_last()));
    }
}

/// The cascade announces no stage.
proof fn lemma_cascade_no_stages(ids: Seq<Seq<char>>, models: Seq<Seq<char>>, sums: Seq<Seq<char>>, d: Seq<char>)
    ensures
        stages_of(cascade_signals(ids, models, sums, d)) == Seq::<FsmStage>::empty(),
    decreases ids.len(),
{
    if ids.len() > 0 {
        let k = ids.len() - 1;
        lemma_cascade_no_stages(ids.drop_last(), models, sums, d);
        let t = turn_signals(ids[k], models[k], d, sums[k]);
        lemma_stages_append(cascade_signals(ids.drop_last(), models, sums, d), t);
        assert(stages_of(t) =~= Seq::<FsmStage>::empty()) by {
            reveal_with_fuel(stages_of, 6);
        }
    }
}

/// A run with both gates approved walks the whole lifecycle in order:
/// Ideation, Planning, Approval, Instrumentation, Execution, Verification.
pub proof fn lemma_auto_run_walks_the_lifecycle(
    demand: Seq<char>,
    ids: Seq<Seq<char>>,
    models: Seq<Seq<char>>,
    used_fallback: bool,
)
    requires
        ids.len() <= MAX_CASCADE_STEPS,
    ensures
        stages_of(auto_run(demand, ids, models, used_fallback)) == seq![
            FsmStage::Ideation,
            FsmStage::Planning,
            FsmStage::Approval,
            FsmStage::Instrumentation,
            FsmStage::Execution,
            FsmStage::Verification,
        ],
{
    let st = start_signals(demand, ids, used_fallback);
    let ins = instrumentation_signals(demand, ids);
    let sums = placeholder_summaries(ids);
    let ex = execution_signals(ids, models, sums, demand);
    lemma_stages_drop_approvals(st + ins + ex);
    lemma_stages_append(st + ins, ex);
    lemma_stages_append(st, ins);
    assert(stages_of(st) =~= seq![FsmStage::Ideation, FsmStage::Planning, FsmStage::Approval]) by {
        reveal_with_fuel(stages_of, 6);
    }
    let head = seq![SignalView::Stage(FsmStage::Instrumentation)];
    let obs = observe_signals(ids);
    let ins_tail = seq![
        SignalView::Log("info"@, "rollback plan ready ("@ + decimal(ids.len()) + " step(s))"@),
        SignalView::ApprovalRequest("approve-exec"@, exec_prompt(demand)),
    ];
    lemma_observe_no_stages(ids);
    lemma_stages_append(head + obs, ins_tail);
    lemma_stages_append(head, obs);
    assert(stages_of(ins_tail) =~= Seq::<FsmStage>::empty()) by {
        reveal_with_fuel(stages_of, 3);
    }
    assert(stages_of(head) =~= seq![FsmStage::Instrumentation]) by {
        reveal_with_fuel(stages_of, 2);
    }
    assert(ins == head + obs + ins_tail);
    assert(stages_of(ins) =~= seq![FsmStage::Instrumentation]);
    let ex_head = seq![SignalView::Stage(FsmStage::Execution)];
    let cas = cascade_signals(ids, models, sums, demand);
    let ex_tail = seq![
        SignalView::Stage(FsmStage::Verification),
        SignalView::Deliverable("Maestro"@, maestro_summary(demand, ids.len())),
    ];
    lemma_cascade_no_stages(ids, models, sums, demand);
    lemma_stages_append(ex_head + cas, ex_tail);
    lemma_stages_append(ex_head, cas);
    assert(stages_of(ex_tail) =~= seq![FsmStage::Verification]) by {
        reveal_with_fuel(stages_of, 3);
    }
    assert(stages_of(ex_head) =~= seq![FsmStage::Execution]) by {
        reveal_with_fuel(stages_of, 2);
    }
    assert(ex == ex_head + cas + ex_tail);
    assert(stages_of(ex) =~= seq![FsmStage::Execution, FsmStage::Verification]);
}

/// A run with both gates approved ends with Maestro's own deliverable.
pub proof fn lemma_maestro_delivers_last(
    demand: Seq<char>,
    ids: Seq<Seq<char>>,
    models: Seq<Seq<char>>,
    used_fallback: bool,
)
    requires
        ids.len() <= MAX_CASCADE_STEPS,
    ensures
        auto_run(demand, ids, models, used_fallback).len() > 0,
        auto_run(demand, ids, models, used_fallback).last() == SignalView::Deliverable(
            "Maestro"@,
            maestro_summary(demand, ids.len()),
        ),
{
    let all = start_signals(demand, ids, used_fallback) + instrumentation_signals(demand, ids)
        + execution_signals(ids, models, placeholder_summaries(ids), demand);
    assert(all.last() == SignalView::Deliverable("Maestro"@, maestro_summary(demand, ids.len())));
}

/// The serial cascade: persona `i`'s turn occupies positions `5i` to `5i+4`,
/// in order (think, act, delegation, deliverable, idle), so every delegated
/// persona delivers before the next one starts.
pub proof fn lemma_cascade_is_serial(ids: Seq<Seq<char>>, models: Seq<Seq<char>>, sums: Seq<Seq<char>>, d: Seq<char>)
    ensures
        cascade_signals(ids, models, sums, d).len() == 5 * ids.len(),
        forall|i: int, k: int|
            0 <= i < ids.len() && 0 <= k < 5 ==> #[trigger] cascade_signals(ids, models, sums, d)[5 * i + k]
                == turn_signals(ids[i], models[i], d, sums[i])[k],
    decreases ids.len(),
{
    if ids.len() > 0 {
        let n = ids.len();
        let init = ids.drop_last();
        lemma_cascade_is_serial(init, models, sums, d);
        let c = cascade_signals(ids, models, sums, d);
        let c0 = cascade_signals(init, models, sums, d);
        assert forall|i: int, k: int| 0 <= i < n && 0 <= k < 5 implies #[trigger] c[5 * i + k] == turn_signals(
            ids[i],
            models[i],
            d,
            sums[i],
        )[k] by {
            if i < n - 1 {
                assert(5 * i + k < 5 * (n - 1)) by (nonlinear_arith)
                    requires
                        i < n - 1,
                        k < 5,
                ;
                assert(init[i] == ids[i]);
                assert(c[5 * i + k] == c0[5 * i + k]);
            } else {
                assert(5 * i + k - 5 * (n - 1) == k) by (nonlinear_arith)
                    requires
                        i == n - 1,
                ;
            }
        }
    }
}

/// Before the plan is approved nothing is delegated, delivered or rolled back.
pub proof fn lemma_no_work_before_plan_approval(demand: Seq<char>, ids: Seq<Seq<char>>, used_fallback: bool)
    ensures
        forall|i: int|
            0 <= i < start_signals(demand, ids, used_fallback).len() ==> {
                let s = #[trigger] start_signals(demand, ids, used_fallback)[i];
                &&& !(s is Delegation)
                &&& !(s is Deliverable)
                &&& !(s is Rollback)
            },
{
}

/// Rejecting the plan does no work: the only signal is the abort warning.
pub proof fn lemma_plan_rejection_does_no_work(reason: Seq<char>)
    ensures
        abort_signals(reason).len() == 1,
        abort_signals(reason)[0] is Log,
{
}

/// Rejecting execution undoes every persona's contribution, most recent
/// first: after the warning, the `k`-th rollback reverts the persona `k`
/// places from the end of the cascade.
pub proof fn lemma_rollback_undoes_in_reverse(ids: Seq<Seq<char>>)
    ensures
        rollback_signals(plan_steps(ids)).len() == ids.len() + 1,
        forall|k: int|
            0 <= k < ids.len() ==> #[trigger] rollback_signals(plan_steps(ids))[k
                + 1] == SignalView::Rollback("revert "@ + ids[ids.len() - 1 - k] + " contribution"@),
{
    let steps = plan_steps(ids);
    crate::domain::models::rollback::lemma_inverses_reversed_index(steps);
}

/// The state reached by answering the gates with `approvals`, in order.
pub open spec fn run_states(s: SessionState, approvals: Seq<bool>, too_long: bool) -> SessionState
    decreases approvals.len(),
{
    if approvals.len() == 0 {
        s
    } else {
        run_states(next_state(s, approvals[0], too_long), approvals.drop_first(), too_long)
    }
}

proof fn lemma_final_states_stay(s: SessionState, approvals: Seq<bool>, too_long: bool)
    requires
        s != SessionState::AwaitingPlanApproval,
        s != SessionState::AwaitingExecApproval,
    ensures
        run_states(s, approvals, too_long) == s,
    decreases approvals.len(),
{
    if approvals.len() > 0 {
        lemma_final_states_stay(s, approvals.drop_first(), too_long);
    }
}

/// Two gates, never assumed: a session started by `start` completes exactly
/// when its first two answers both approve (and the cascade is within the
/// safety limit); any rejection ends it for good.
pub proof fn lemma_done_iff_both_gates_approved(approvals: Seq<bool>, too_long: bool)
    ensures
        (run_states(SessionState::AwaitingPlanApproval, approvals, too_long) == SessionState::Done) <==> (
        approvals.len() >= 2 && approvals[0] && approvals[1] && !too_long),
{
    if approvals.len() > 0 {
        let s1 = next_state(SessionState::AwaitingPlanApproval, approvals[0], too_long);
        let rest = approvals.drop_first();
        assert(run_states(SessionState::AwaitingPlanApproval, approvals, too_long) == run_states(s1, rest, too_long));
        if !approvals[0] {
            lemma_final_states_stay(s1, rest, too_long);
        } else if rest.len() > 0 {
            let s2 = next_state(s1, rest[0], too_long);
            assert(rest[0] == approvals[1]);
            assert(run_states(s1, rest, too_long) == run_states(s2, rest.drop_first(), too_long));
            lemma_final_states_stay(s2, rest.drop_first(), too_long);
        }
    }
}

/// A session started by `start` stays pending exactly until the plan gate is
/// answered, and then only while the plan was approved and the execution gate
/// is still unanswered; it is never pending and done at once, and once it is
/// no longer pending no answer changes it.
pub proof fn lemma_pending_until_answered(approvals: Seq<bool>, too_long: bool)
    ensures
        ({
            let s = run_states(SessionState::AwaitingPlanApproval, approvals, too_long);
            &&& (s == SessionState::AwaitingPlanApproval || s == SessionState::AwaitingExecApproval) <==> (
            approvals.len() == 0 || (approvals.len() == 1 && approvals[0]))
            &&& s == SessionState::AwaitingExecApproval <==> (approvals.len() == 1 && approvals[0])
            &&& !(s == SessionState::Done && (s == SessionState::AwaitingPlanApproval || s
                == SessionState::AwaitingExecApproval))
            &&& forall|more: Seq<bool>|
                s != SessionState::AwaitingPlanApproval && s != SessionState::AwaitingExecApproval
                    ==> #[trigger] run_states(s, more, too_long) == s
        }),
{
    let s = run_states(SessionState::AwaitingPlanApproval, approvals, too_long);
    assert forall|more: Seq<bool>|
        s != SessionState::AwaitingPlanApproval && s != SessionState::AwaitingExecApproval
            implies #[trigger] run_states(s, more, too_long) == s by {
        lemma_final_states_stay(s, more, too_long);
    }
    if approvals.len() > 0 {
        let s1 = next_state(SessionState::AwaitingPlanApproval, approvals[0], too_long);
        let rest = approvals.drop_first();
        assert(s == run_states(s1, rest, too_long));
        if !approvals[0] {
            lemma_final_states_stay(s1, rest, too_long);
        } else if rest.len() > 0 {
            let s2 = next_state(s1, rest[0], too_long);
            assert(run_states(s1, rest, too_long) == run_states(s2, rest.drop_first(), too_long));
            lemma_final_states_stay(s2, rest.drop_first(), too_long);
        } else {
            assert(rest.len() == 0);
            assert(run_states(s1, rest, too_long) == s1);
        }
    }
}

/// Routing is deterministic: a demand over a persona catalog routes to one
/// selection, with one fallback decision.
pub proof fn lemma_routes_to_unique(
    demand: Seq<char>,
    personas: Seq<PersonaView>,
    ids1: Seq<Seq<char>>,
    fb1: bool,
    ids2: Seq<Seq<char>>,
    fb2: bool,
)
    requires
        routes_to(demand, personas, ids1, fb1),
        routes_to(demand, personas, ids2, fb2),
    ensures
        ids1 == ids2,
        fb1 == fb2,
{
    let r1 = choose|ranked: Seq<(Seq<char>, u32)>|
        #![trigger is_ranked(ranked)]
        {
            &&& is_ranked(ranked)
            &&& ranked.to_multiset() == candidates(personas, tokens_of(demand)).to_multiset()
            &&& fb1 == (winners(ranked).len() == 0)
            &&& ids1 == if fb1 {
                fallback_choice(ranked)
            } else {
                winners(ranked)
            }
        };
    let r2 = choose|ranked: Seq<(Seq<char>, u32)>|
        #![trigger is_ranked(ranked)]
        {
            &&& is_ranked(ranked)
            &&& ranked.to_multiset() == candidates(personas, tokens_of(demand)).to_multiset()
            &&& fb2 == (winners(ranked).len() == 0)
            &&& ids2 == if fb2 {
                fallback_choice(ranked)
            } else {
                winners(ranked)
            }
        };
    lemma_ranked_unique(r1, r2);
}

/// Orchestration is deterministic: with a model router that answers each
/// persona the same way every time, any two runs over the same demand and
/// catalog emit the same signals.
pub proof fn lemma_orchestrate_deterministic<F: Fn(&str) -> String>(
    model_for: F,
    demand: Seq<char>,
    personas: Seq<PersonaView>,
    ids1: Seq<Seq<char>>,
    models1: Seq<Seq<char>>,
    fb1: bool,
    ids2: Seq<Seq<char>>,
    models2: Seq<Seq<char>>,
    fb2: bool,
)
    requires
        forall|a: &str, b: &str, o1: String, o2: String|
            a@ == b@ && #[trigger] model_for.ensures((a,), o1) && #[trigger] model_for.ensures((b,), o2)
                ==> o1@ == o2@,
        routes_to(demand, personas, ids1, fb1),
        routes_to(demand, personas, ids2, fb2),
        ids1.len() == models1.len(),
        ids2.len() == models2.len(),
        forall|i: int| 0 <= i < ids1.len() ==> routes_model(model_for, #[trigger] ids1[i], models1[i]),
        forall|i: int| 0 <= i < ids2.len() ==> routes_model(model_for, #[trigger] ids2[i], models2[i]),
    ensures
        auto_run(demand, ids1, models1, fb1) == auto_run(demand, ids2, models2, fb2),
{
    lemma_routes_to_unique(demand, personas, ids1, fb1, ids2, fb2);
    assert forall|i: int| 0 <= i < ids1.len() implies models1[i] == models2[i] by {
        assert(routes_model(model_for, ids1[i], models1[i]));
        assert(routes_model(model_for, ids2[i], models2[i]));
        let (a1, o1) = choose|a: &str, out: String| a@ == ids1[i] && out@ == models1[i] && #[trigger] model_for.ensures((a,), out);
        let (a2, o2) = choose|a: &str, out: String| a@ == ids2[i] && out@ == models2[i] && #[trigger] model_for.ensures((a,), out);
    }
    assert(models1 =~= models2);
}

/// Append one signal.
fn push_signal(signals: &mut Vec<Signal>, s: Signal)
    ensures
        final(signals).deep_view() == old(signals).deep_view().push(s.deep_view()),
{
    let ghost sv = s.deep_view();
    signals.push(s);
    assert(signals.deep_view() =~= old(signals).deep_view().push(sv));
}

/// Advance the project one stage and record the transition (terminal-safe).
fn advance(project: &mut MicroProject, signals: &mut Vec<Signal>)
    ensures
        final(project).id == old(project).id,
        final(project).demand == old(project).demand,
        match crate::domain::models::fsm::next_stage(old(project).stage) {
            Some(n) => final(project).stage == n && final(signals).deep_view() == old(
                signals,
            ).deep_view().push(SignalView::Stage(n)),
            None => final(project).stage == old(project).stage && final(signals).deep_view() == old(
                signals,
            ).deep_view(),
        },
{
    match project.advance() {
        Ok(stage) => push_signal(signals, Signal::Stage(stage)),
        Err(_) => {},
    }
}

} // verus!

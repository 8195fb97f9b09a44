//! Per-agent metrics aggregation for observability.

use vstd::prelude::*;

use crate::domain::models::agent_id::AgentId;
use crate::domain::models::str_map::{has_key, keys_ascending, lemma_view_matches_pairs, StrMap};
use crate::text::lex_lt;
use crate::domain::ports::llm_provider::TokenUsage;

verus! {

/// Accumulated metrics for a single agent.
#[derive(Debug, Clone, Copy, PartialEq, Eq, Structural)]
pub struct AgentStats {
    /// Total cognitive cycles run.
    pub cycles: u64,
    /// Successful completions (act produced a message).
    pub successes: u64,
    /// Failed completions (act returned an error).
    pub failures: u64,
    /// Total prompt tokens consumed.
    pub prompt_tokens: u64,
    /// Total completion tokens generated.
    pub completion_tokens: u64,
    /// Total time spent acting, in nanoseconds (the exact sum of the cycles'
    /// durations).
    pub total_latency_ns: u128,
}

/// All counters at zero.
pub open spec fn zero_stats() -> AgentStats {
    AgentStats {
        cycles: 0,
        successes: 0,
        failures: 0,
        prompt_tokens: 0,
        completion_tokens: 0,
        total_latency_ns: 0,
    }
}

/// Every cycle ended either in a success or in a failure.
pub open spec fn balanced(s: AgentStats) -> bool {
    s.cycles == s.successes + s.failures
}

impl Default for AgentStats {
    fn default() -> (r: Self)
        ensures
            r == zero_stats(),
    {
        AgentStats {
            cycles: 0,
            successes: 0,
            failures: 0,
            prompt_tokens: 0,
            completion_tokens: 0,
            total_latency_ns: 0,
        }
    }
}

impl AgentStats {
    /// Total tokens (prompt + completion).
    pub fn total_tokens(&self) -> (r: u64)
        requires
            self.prompt_tokens + self.completion_tokens <= u64::MAX,
        ensures
            r == self.prompt_tokens + self.completion_tokens,
    {
        self.prompt_tokens + self.completion_tokens
    }
}

/// `s` after one more cycle with the given outcome, usage and latency.
pub open spec fn after_cycle(s: AgentStats, success: bool, usage: Option<TokenUsage>, latency_ns: u128) -> AgentStats {
    AgentStats {
        cycles: (s.cycles + 1) as u64,
        successes: if success { (s.successes + 1) as u64 } else { s.successes },
        failures: if success { s.failures } else { (s.failures + 1) as u64 },
        prompt_tokens: match usage {
            Some(u) => (s.prompt_tokens + u.prompt_tokens) as u64,
            None => s.prompt_tokens,
        },
        completion_tokens: match usage {
            Some(u) => (s.completion_tokens + u.completion_tokens) as u64,
            None => s.completion_tokens,
        },
        total_latency_ns: (s.total_latency_ns + latency_ns) as u128,
    }
}

/// One more cycle fits in every counter of `s`.
pub open spec fn cycle_fits(s: AgentStats, usage: Option<TokenUsage>, latency_ns: u128) -> bool {
    &&& s.cycles + 1 <= u64::MAX
    &&& s.total_latency_ns + latency_ns <= u128::MAX
    &&& match usage {
        Some(u) => s.prompt_tokens + u.prompt_tokens <= u64::MAX && s.completion_tokens
            + u.completion_tokens <= u64::MAX,
        None => true,
    }
}

/// The sum of `f` over `s`.
pub open spec fn sum_of(s: Seq<AgentStats>, f: spec_fn(AgentStats) -> nat) -> nat
    decreases s.len(),
{
    if s.len() == 0 {
        0
    } else {
        sum_of(s.drop_last(), f) + f(s.last())
    }
}

pub open spec fn cycles_of(s: AgentStats) -> nat {
    s.cycles as nat
}

pub open spec fn successes_of(s: AgentStats) -> nat {
    s.successes as nat
}

pub open spec fn failures_of(s: AgentStats) -> nat {
    s.failures as nat
}

pub open spec fn prompt_of(s: AgentStats) -> nat {
    s.prompt_tokens as nat
}

pub open spec fn completion_of(s: AgentStats) -> nat {
    s.completion_tokens as nat
}

pub open spec fn latency_of(s: AgentStats) -> nat {
    s.total_latency_ns as nat
}

/// The prompt tokens a cycle's usage adds.
pub open spec fn usage_prompt(usage: Option<TokenUsage>) -> nat {
    match usage {
        Some(u) => u.prompt_tokens as nat,
        None => 0,
    }
}

/// The completion tokens a cycle's usage adds.
pub open spec fn usage_completion(usage: Option<TokenUsage>) -> nat {
    match usage {
        Some(u) => u.completion_tokens as nat,
        None => 0,
    }
}

/// Replacing one element changes a sum by the difference.
proof fn lemma_sum_update(s: Seq<AgentStats>, f: spec_fn(AgentStats) -> nat, i: int, x: AgentStats)
    requires
        0 <= i < s.len(),
    ensures
        sum_of(s.update(i, x), f) + f(s[i]) == sum_of(s, f) + f(x),
    decreases s.len(),
{
    if i == s.len() - 1 {
        assert(s.update(i, x).drop_last() =~= s.drop_last());
    } else {
        lemma_sum_update(s.drop_last(), f, i, x);
        assert(s.update(i, x).drop_last() =~= s.drop_last().update(i, x));
    }
}

/// Inserting one element adds it to a sum.
proof fn lemma_sum_insert(s: Seq<AgentStats>, f: spec_fn(AgentStats) -> nat, i: int, x: AgentStats)
    requires
        0 <= i <= s.len(),
    ensures
        sum_of(s.insert(i, x), f) == sum_of(s, f) + f(x),
    decreases s.len(),
{
    if i == s.len() {
        assert(s.insert(i, x).drop_last() =~= s);
    } else {
        lemma_sum_insert(s.drop_last(), f, i, x);
        assert(s.insert(i, x).drop_last() =~= s.drop_last().insert(i, x));
    }
}

/// Every session-wide sum over `s` fits in a `u64`.
pub open spec fn totals_fit(s: Seq<AgentStats>) -> bool {
    &&& sum_of(s, |a: AgentStats| cycles_of(a)) <= u64::MAX
    &&& sum_of(s, |a: AgentStats| prompt_of(a)) <= u64::MAX
    &&& sum_of(s, |a: AgentStats| completion_of(a)) <= u64::MAX
    &&& sum_of(s, |a: AgentStats| latency_of(a)) <= u128::MAX
}

/// Aggregates metrics across all agents in a session.
#[derive(Debug)]
pub struct AgentMetrics {
    stats: StrMap<(AgentId, AgentStats)>,
}

impl AgentMetrics {
    #[verifier::type_invariant]
    spec fn consistent(self) -> bool {
        forall|k: Seq<char>| #[trigger] self.stats@.contains_key(k) ==> {
            &&& self.stats@[k].0@ == k
            &&& balanced(self.stats@[k].1)
        }
    }

    /// The stats of every agent that has run, by agent id.
    pub closed spec fn per_agent(&self) -> Map<Seq<char>, AgentStats> {
        self.stats@.map_values(|e: (AgentId, AgentStats)| e.1)
    }

    /// The stats of every agent, in ascending order of agent id.
    pub closed spec fn ordered(&self) -> Seq<AgentStats> {
        self.stats.pairs().map_values(|e: (Seq<char>, (AgentId, AgentStats))| e.1.1)
    }

    /// The agent ids, in ascending order.
    pub closed spec fn ordered_ids(&self) -> Seq<Seq<char>> {
        self.stats.pairs().map_values(|e: (Seq<char>, (AgentId, AgentStats))| e.0)
    }

    /// No agent has run yet.
    pub fn new() -> (r: Self)
        ensures
            r.per_agent() == Map::<Seq<char>, AgentStats>::empty(),
            r.ordered().len() == 0,
    {
        let r = AgentMetrics { stats: StrMap::new() };
        assert(r.per_agent() =~= Map::<Seq<char>, AgentStats>::empty());
        r
    }

    /// The stats recorded so far for `agent` (all zero if it has not run).
    pub open spec fn current(&self, agent: Seq<char>) -> AgentStats {
        if self.per_agent().contains_key(agent) {
            self.per_agent()[agent]
        } else {
            zero_stats()
        }
    }

    /// Record a completed cycle for an agent. The session totals grow by
    /// exactly this cycle: one cycle, one success or one failure, its tokens
    /// and its latency.
    pub fn record_cycle(
        &mut self,
        agent: &AgentId,
        success: bool,
        usage: Option<TokenUsage>,
        latency_ns: u128,
    )
        requires
            cycle_fits(old(self).current(agent@), usage, latency_ns),
        ensures
            final(self).per_agent() == old(self).per_agent().insert(
                agent@,
                after_cycle(old(self).current(agent@), success, usage, latency_ns),
            ),
            sum_of(final(self).ordered(), |a: AgentStats| cycles_of(a)) == sum_of(
                old(self).ordered(),
                |a: AgentStats| cycles_of(a),
            ) + 1,
            sum_of(final(self).ordered(), |a: AgentStats| successes_of(a)) == sum_of(
                old(self).ordered(),
                |a: AgentStats| successes_of(a),
            ) + if success { 1int } else { 0int },
            sum_of(final(self).ordered(), |a: AgentStats| failures_of(a)) == sum_of(
                old(self).ordered(),
                |a: AgentStats| failures_of(a),
            ) + if success { 0int } else { 1int },
            sum_of(final(self).ordered(), |a: AgentStats| prompt_of(a)) == sum_of(
                old(self).ordered(),
                |a: AgentStats| prompt_of(a),
            ) + usage_prompt(usage),
            sum_of(final(self).ordered(), |a: AgentStats| completion_of(a)) == sum_of(
                old(self).ordered(),
                |a: AgentStats| completion_of(a),
            ) + usage_completion(usage),
            sum_of(final(self).ordered(), |a: AgentStats| latency_of(a)) == sum_of(
                old(self).ordered(),
                |a: AgentStats| latency_of(a),
            ) + latency_ns,
    {
        proof {
            use_type_invariant(&*self);
        }
        let mut entry: AgentStats = match self.stats.get(agent.as_str()) {
            Some(e) => e.1,
            None => AgentStats::default(),
        };
        entry.cycles = entry.cycles + 1;
        if success {
            entry.successes = entry.successes + 1;
        } else {
            entry.failures = entry.failures + 1;
        }
        match usage {
            Some(u) => {
                entry.prompt_tokens = entry.prompt_tokens + u.prompt_tokens;
                entry.completion_tokens = entry.completion_tokens + u.completion_tokens;
            },
            None => {},
        }
        entry.total_latency_ns = entry.total_latency_ns + latency_ns;
        let mut stats = StrMap::new();
        std::mem::swap(&mut stats, &mut self.stats);
        let ghost before = stats.pairs();
        let ghost was_there = stats@.contains_key(agent@);
        let ghost old_view = stats@;
        let id_copy = agent.clone();
        let ghost idg = id_copy;
        stats.insert(agent.to_string(), (id_copy, entry));
        self.stats = stats;
        assert(self.per_agent() =~= old(self).per_agent().insert(
            agent@,
            after_cycle(old(self).current(agent@), success, usage, latency_ns),
        ));
        proof {
            let olds = old(self).ordered();
            let news = self.ordered();
            let cur = old(self).current(agent@);
            if was_there {
                let i = choose|i: int|
                    0 <= i < before.len() && before[i].0 == agent@ && before[i].1 == old_view[agent@]
                        && self.stats.pairs() == #[trigger] before.update(i, (agent@, (idg, entry)));
                assert(news =~= olds.update(i, entry));
                assert(olds[i] == cur);
                lemma_sum_update(olds, |a: AgentStats| cycles_of(a), i, entry);
                lemma_sum_update(olds, |a: AgentStats| successes_of(a), i, entry);
                lemma_sum_update(olds, |a: AgentStats| failures_of(a), i, entry);
                lemma_sum_update(olds, |a: AgentStats| prompt_of(a), i, entry);
                lemma_sum_update(olds, |a: AgentStats| completion_of(a), i, entry);
                lemma_sum_update(olds, |a: AgentStats| latency_of(a), i, entry);
            } else {
                let i = choose|i: int|
                    0 <= i <= before.len() && self.stats.pairs() == #[trigger] before.insert(i, (agent@, (idg, entry)));
                assert(news =~= olds.insert(i, entry));
                assert(cur == zero_stats());
                lemma_sum_insert(olds, |a: AgentStats| cycles_of(a), i, entry);
                lemma_sum_insert(olds, |a: AgentStats| successes_of(a), i, entry);
                lemma_sum_insert(olds, |a: AgentStats| failures_of(a), i, entry);
                lemma_sum_insert(olds, |a: AgentStats| prompt_of(a), i, entry);
                lemma_sum_insert(olds, |a: AgentStats| completion_of(a), i, entry);
                lemma_sum_insert(olds, |a: AgentStats| latency_of(a), i, entry);
            }
        }
    }

    /// Get stats for a specific agent.
    pub fn stats(&self, agent: &AgentId) -> (r: Option<&AgentStats>)
        ensures
            r is Some <==> self.per_agent().contains_key(agent@),
            r matches Some(s) ==> *s == self.per_agent()[agent@] && balanced(*s),
    {
        proof {
            use_type_invariant(self);
        }
        match self.stats.get(agent.as_str()) {
            Some(e) => Some(&e.1),
            None => None,
        }
    }

    /// Session-wide totals.
    pub fn session_totals(&self) -> (r: AgentStats)
        requires
            totals_fit(self.ordered()),
        ensures
            r.cycles == sum_of(self.ordered(), |a: AgentStats| cycles_of(a)),
            r.successes == sum_of(self.ordered(), |a: AgentStats| successes_of(a)),
            r.failures == sum_of(self.ordered(), |a: AgentStats| failures_of(a)),
            r.prompt_tokens == sum_of(self.ordered(), |a: AgentStats| prompt_of(a)),
            r.completion_tokens == sum_of(self.ordered(), |a: AgentStats| completion_of(a)),
            r.total_latency_ns == sum_of(self.ordered(), |a: AgentStats| latency_of(a)),
            balanced(r),
    {
        proof {
            use_type_invariant(self);
        }
        let ghost all = self.ordered();
        let n = self.stats.len();
        let mut totals = AgentStats::default();
        let mut i: usize = 0;
        while i < n
            invariant
                n == all.len(),
                all == self.ordered(),
                i <= n,
                totals_fit(all),
                totals.cycles == sum_of(all.subrange(0, i as int), |a: AgentStats| cycles_of(a)),
                totals.successes == sum_of(all.subrange(0, i as int), |a: AgentStats| successes_of(a)),
                totals.failures == sum_of(all.subrange(0, i as int), |a: AgentStats| failures_of(a)),
                totals.prompt_tokens == sum_of(all.subrange(0, i as int), |a: AgentStats| prompt_of(a)),
                totals.completion_tokens == sum_of(all.subrange(0, i as int), |a: AgentStats| completion_of(a)),
                totals.total_latency_ns == sum_of(all.subrange(0, i as int), |a: AgentStats| latency_of(a)),
                balanced(totals),
            decreases n - i,
        {
            let s = self.stats.value_at(i).1;
            proof {
                use_type_invariant(self);
                assert(balanced(s));
                let pre = all.subrange(0, i as int);
                let next = all.subrange(0, i + 1);
                assert(next.drop_last() =~= pre);
                assert(next.last() == s);
                lemma_sum_prefix_le(all, |a: AgentStats| cycles_of(a), i + 1);
                lemma_sum_prefix_le(all, |a: AgentStats| prompt_of(a), i + 1);
                lemma_sum_prefix_le(all, |a: AgentStats| completion_of(a), i + 1);
                lemma_sum_prefix_le(all, |a: AgentStats| latency_of(a), i + 1);
            }
            totals.cycles = totals.cycles + s.cycles;
            totals.successes = totals.successes + s.successes;
            totals.failures = totals.failures + s.failures;
            totals.prompt_tokens = totals.prompt_tokens + s.prompt_tokens;
            totals.completion_tokens = totals.completion_tokens + s.completion_tokens;
            totals.total_latency_ns = totals.total_latency_ns + s.total_latency_ns;
            i = i + 1;
        }
        assert(all.subrange(0, n as int) =~= all);
        totals
    }

    /// All per-agent stats, sorted by agent id for determinism.
    pub fn all_stats(&self) -> (r: Vec<(&AgentId, &AgentStats)>)
        ensures
            self.ordered_ids().len() == self.ordered().len(),
            forall|i: int, j: int|
                0 <= i < j < self.ordered_ids().len() ==> lex_lt(
                    #[trigger] self.ordered_ids()[i],
                    #[trigger] self.ordered_ids()[j],
                ),
            forall|i: int|
                0 <= i < self.ordered_ids().len() ==> self.per_agent().contains_key(
                    #[trigger] self.ordered_ids()[i],
                ) && self.per_agent()[self.ordered_ids()[i]] == self.ordered()[i],
            forall|k: Seq<char>|
                #[trigger] self.per_agent().contains_key(k) ==> exists|i: int|
                    0 <= i < self.ordered_ids().len() && #[trigger] self.ordered_ids()[i] == k,
            r@.len() == self.ordered().len(),
            forall|i: int| 0 <= i < r@.len() ==> (#[trigger] r@[i]).0@ == self.ordered_ids()[i]
                && *r@[i].1 == self.ordered()[i],
    {
        let n = self.stats.len();
        proof {
            let p = self.stats.pairs();
            lemma_view_matches_pairs(self.stats);
            assert forall|i: int| 0 <= i < self.ordered_ids().len() implies self.per_agent().contains_key(
                #[trigger] self.ordered_ids()[i],
            ) && self.per_agent()[self.ordered_ids()[i]] == self.ordered()[i] by {
                assert(self.ordered_ids()[i] == p[i].0);
                assert(self.stats@.contains_key(p[i].0));
            }
            assert forall|k: Seq<char>| #[trigger] self.per_agent().contains_key(k) implies exists|i: int|
                0 <= i < self.ordered_ids().len() && #[trigger] self.ordered_ids()[i] == k by {
                assert(self.stats@.contains_key(k));
                assert(has_key(p, k));
                let i = choose|i: int| 0 <= i < p.len() && #[trigger] p[i].0 == k;
                assert(self.ordered_ids()[i] == k);
            }
        }
        let mut out: Vec<(&AgentId, &AgentStats)> = Vec::new();
        let mut i: usize = 0;
        while i < n
            invariant
                n == self.ordered().len(),
                i <= n,
                out@.len() == i,
                forall|j: int| 0 <= j < i ==> (#[trigger] out@[j]).0@ == self.ordered_ids()[j]
                    && *out@[j].1 == self.ordered()[j],
            decreases n - i,
        {
            let e = self.stats.value_at(i);
            proof {
                use_type_invariant(self);
            }
            out.push((&e.0, &e.1));
            i = i + 1;
        }
        out
    }
}

/// A prefix of `s` sums to no more than all of `s`.
pub proof fn lemma_sum_prefix_le(s: Seq<AgentStats>, f: spec_fn(AgentStats) -> nat, k: int)
    requires
        0 <= k <= s.len(),
    ensures
        sum_of(s.subrange(0, k), f) <= sum_of(s, f),
    decreases s.len() - k,
{
    if k < s.len() {
        lemma_sum_prefix_le(s, f, k + 1);
        assert(s.subrange(0, k + 1).drop_last() =~= s.subrange(0, k));
    } else {
        assert(s.subrange(0, k) =~= s);
    }
}

} // verus!

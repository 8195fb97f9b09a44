//! Shared scratchpad (blackboard pattern) for inter-agent state sharing.

use vstd::prelude::*;

use super::agent_id::AgentId;
use super::str_map::{has_key, keys_ascending, lemma_view_matches_pairs, StrMap};
use crate::text::owned;

verus! {

/// A single write recorded in the scratchpad log.
#[derive(Debug, PartialEq, Eq)]
pub struct ScratchpadEntry {
    pub key: String,
    pub value: String,
    pub author: AgentId,
}

/// The abstract value of a [`ScratchpadEntry`]: key, value and author.
pub open spec fn entry_view(e: ScratchpadEntry) -> (Seq<char>, Seq<char>, Seq<char>) {
    (e.key@, e.value@, e.author@)
}

/// The text of the scratchpad's entries, one `  key: value` line each.
pub open spec fn context_lines(p: Seq<(Seq<char>, String)>) -> Seq<char>
    decreases p.len(),
{
    if p.len() == 0 {
        Seq::empty()
    } else {
        context_lines(p.drop_last()) + "  "@ + p.last().0 + ": "@ + p.last().1@ + "\n"@
    }
}

/// A shared key/value workspace visible to all agents in a cycle.
#[derive(Debug)]
pub struct Scratchpad {
    state: StrMap<String>,
    log: Vec<ScratchpadEntry>,
}

impl Scratchpad {
    /// The current value of every key.
    pub closed spec fn values(&self) -> Map<Seq<char>, Seq<char>> {
        self.state@.map_values(|v: String| v@)
    }

    /// Every write so far, oldest first: key, value and author.
    pub closed spec fn history(&self) -> Seq<(Seq<char>, Seq<char>, Seq<char>)> {
        self.log@.map_values(|e: ScratchpadEntry| entry_view(e))
    }

    /// The entries in ascending key order.
    pub closed spec fn ordered(&self) -> Seq<(Seq<char>, String)> {
        self.state.pairs()
    }

    /// The prompt text for the current state.
    pub open spec fn prompt_context(&self) -> Seq<char> {
        if self.ordered().len() == 0 {
            Seq::empty()
        } else {
            "[Shared Scratchpad]\n"@ + context_lines(self.ordered())
        }
    }

    /// An empty scratchpad.
    pub fn new() -> (r: Self)
        ensures
            r.values() == Map::<Seq<char>, Seq<char>>::empty(),
            r.history() == Seq::<(Seq<char>, Seq<char>, Seq<char>)>::empty(),
            r.ordered().len() == 0,
    {
        let r = Scratchpad { state: StrMap::new(), log: Vec::new() };
        assert(r.values() =~= Map::<Seq<char>, Seq<char>>::empty());
        assert(r.history() =~= Seq::<(Seq<char>, Seq<char>, Seq<char>)>::empty());
        r
    }

    /// Write a key/value pair, recording who wrote it.
    pub fn write(&mut self, key: &str, value: &str, author: AgentId)
        ensures
            final(self).values() == old(self).values().insert(key@, value@),
            final(self).history() == old(self).history().push((key@, value@, author@)),
    {
        self.state.insert(owned(key), owned(value));
        self.log.push(ScratchpadEntry { key: owned(key), value: owned(value), author });
        assert(self.values() =~= old(self).values().insert(key@, value@));
        assert(self.history() =~= old(self).history().push((key@, value@, author@)));
    }

    /// Read a value by key.
    pub fn read(&self, key: &str) -> (r: Option<&str>)
        ensures
            r is Some <==> self.values().contains_key(key@),
            r matches Some(v) ==> v@ == self.values()[key@],
    {
        match self.state.get(key) {
            Some(v) => Some(v.as_str()),
            None => None,
        }
    }

    /// The entire state.
    pub fn snapshot(&self) -> (r: &StrMap<String>)
        ensures
            r@.map_values(|v: String| v@) == self.values(),
            r.pairs() == self.ordered(),
    {
        &self.state
    }

    /// The full write log (append-only, oldest first).
    pub fn log(&self) -> (r: &[ScratchpadEntry])
        ensures
            r@.map_values(|e: ScratchpadEntry| entry_view(e)) == self.history(),
    {
        self.log.as_slice()
    }

    /// Format the scratchpad as context for injection into an LLM prompt.
    pub fn as_prompt_context(&self) -> (r: String)
        ensures
            r@ == self.prompt_context(),
            keys_ascending(self.ordered()),
            forall|i: int|
                0 <= i < self.ordered().len() ==> self.values().contains_key(#[trigger] self.ordered()[i].0)
                    && self.values()[self.ordered()[i].0] == self.ordered()[i].1@,
            forall|k: Seq<char>| #[trigger] self.values().contains_key(k) ==> has_key(self.ordered(), k),
    {
        let _ = self.state.len();
        proof {
            lemma_view_matches_pairs(self.state);
        }
        if self.state.is_empty() {
            return String::new();
        }
        let mut ctx = owned("[Shared Scratchpad]\n");
        let n = self.state.len();
        let mut i: usize = 0;
        while i < n
            invariant
                n == self.ordered().len(),
                i <= n,
                ctx@ == "[Shared Scratchpad]\n"@ + context_lines(self.ordered().subrange(0, i as int)),
            decreases n - i,
        {
            let ghost p = self.ordered();
            proof {
                assert(p.subrange(0, i + 1).drop_last() =~= p.subrange(0, i as int));
            }
            ctx.append("  ");
            ctx.append(self.state.key_at(i).as_str());
            ctx.append(": ");
            ctx.append(self.state.value_at(i).as_str());
            ctx.append("\n");
            i = i + 1;
        }
        assert(self.ordered().subrange(0, n as int) =~= self.ordered());
        ctx
    }
}

/// Read-your-writes: after writing `value` under `key`, reading `key` gives
/// `value`, and every other key reads as it did before.
pub proof fn lemma_read_after_write(
    before: Scratchpad,
    after: Scratchpad,
    key: Seq<char>,
    value: Seq<char>,
    other: Seq<char>,
)
    requires
        after.values() == before.values().insert(key, value),
    ensures
        after.values().contains_key(key),
        after.values()[key] == value,
        other != key ==> (after.values().contains_key(other) == before.values().contains_key(other)),
        other != key && before.values().contains_key(other) ==> after.values()[other]
            == before.values()[other],
{
}

/// The log is append-only: a write keeps every earlier record in place and
/// adds exactly one at the end, so overwriting a key never erases history.
pub proof fn lemma_log_append_only(
    before: Scratchpad,
    after: Scratchpad,
    key: Seq<char>,
    value: Seq<char>,
    author: Seq<char>,
)
    requires
        after.history() == before.history().push((key, value, author)),
    ensures
        after.history().len() == before.history().len() + 1,
        before.history().is_prefix_of(after.history()),
        after.history().last() == (key, value, author),
{
    assert(after.history().subrange(0, before.history().len() as int) =~= before.history());
}

} // verus!

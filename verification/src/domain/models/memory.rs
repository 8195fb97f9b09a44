//! Short-term agent memory: a bounded sliding window of messages.

use vstd::prelude::*;

use super::message::{Message, MessageView};

verus! {

/// The last `cap` elements of `s` (all of `s` when it is shorter).
pub open spec fn window<A>(s: Seq<A>, cap: nat) -> Seq<A> {
    if s.len() <= cap {
        s
    } else {
        s.subrange(s.len() - cap, s.len() as int)
    }
}

/// A bounded sliding window of messages representing an agent's short-term memory.
#[derive(Debug)]
pub struct ShortTermMemory {
    messages: Vec<Message>,
    capacity: usize,
}

impl ShortTermMemory {
    #[verifier::type_invariant]
    spec fn within_capacity(self) -> bool {
        &&& self.capacity >= 1
        &&& self.messages@.len() <= self.capacity
    }

    /// The retained messages, oldest first.
    pub closed spec fn contents(&self) -> Seq<MessageView> {
        self.messages@.map_values(|m: Message| m@)
    }

    /// The maximum number of messages retained.
    pub closed spec fn limit(&self) -> nat {
        self.capacity as nat
    }

    /// Create memory with the given capacity (max messages retained, at least one).
    pub fn new(capacity: usize) -> (r: Self)
        ensures
            r.limit() == if capacity == 0 { 1 } else { capacity as nat },
            r.contents() == Seq::<MessageView>::empty(),
    {
        let cap = if capacity == 0 { 1 } else { capacity };
        let r = ShortTermMemory { messages: Vec::new(), capacity: cap };
        assert(r.contents() =~= Seq::<MessageView>::empty());
        r
    }

    /// Record a message. If at capacity, the oldest message is evicted.
    pub fn record(&mut self, message: Message)
        ensures
            final(self).limit() == old(self).limit(),
            final(self).contents() == window(old(self).contents().push(message@), old(self).limit()),
    {
        proof {
            use_type_invariant(&*self);
        }
        let ghost before = self.contents();
        let ghost m = message@;
        let mut msgs: Vec<Message> = Vec::new();
        std::mem::swap(&mut msgs, &mut self.messages);
        if msgs.len() == self.capacity {
            msgs.remove(0);
        }
        msgs.push(message);
        self.messages = msgs;
        proof {
            let all = before.push(m);
            if before.len() == self.capacity {
                assert(self.contents() =~= all.subrange(all.len() - self.capacity, all.len() as int));
            } else {
                assert(self.contents() =~= all);
            }
        }
    }

    /// All retained messages, oldest first.
    pub fn messages(&self) -> (r: &[Message])
        ensures
            r@.map_values(|m: Message| m@) == self.contents(),
    {
        self.messages.as_slice()
    }

    /// Number of messages currently held.
    pub fn len(&self) -> (r: usize)
        ensures
            r == self.contents().len(),
            1 <= self.limit(),
            r <= self.limit(),
    {
        proof {
            use_type_invariant(self);
        }
        self.messages.len()
    }

    /// Whether memory is empty.
    pub fn is_empty(&self) -> (r: bool)
        ensures
            r == (self.contents().len() == 0),
    {
        self.messages.len() == 0
    }

    /// Clear all memory.
    pub fn clear(&mut self)
        ensures
            final(self).limit() == old(self).limit(),
            final(self).contents() == Seq::<MessageView>::empty(),
    {
        proof {
            use_type_invariant(&*self);
        }
        self.messages = Vec::new();
        assert(self.contents() =~= Seq::<MessageView>::empty());
    }
}

/// Recording messages one at a time keeps exactly the most recent `cap` of
/// everything recorded: windowing after each push equals windowing once at
/// the end.
pub proof fn lemma_window_push<A>(s: Seq<A>, x: A, cap: nat)
    requires
        cap >= 1,
    ensures
        window(window(s, cap).push(x), cap) == window(s.push(x), cap),
{
    let w = window(s, cap);
    let all = s.push(x);
    if s.len() <= cap {
        assert(w == s);
    } else {
        assert(window(w.push(x), cap) =~= all.subrange(all.len() - cap, all.len() as int));
    }
}

/// The contents of memory after recording `xs` one by one, starting from
/// `start`, are the last `cap` messages of `start + xs`.
pub open spec fn record_all<A>(start: Seq<A>, xs: Seq<A>, cap: nat) -> Seq<A>
    decreases xs.len(),
{
    if xs.len() == 0 {
        start
    } else {
        window(record_all(start, xs.drop_last(), cap).push(xs.last()), cap)
    }
}

/// Sliding-window law: recording a stream of messages into an empty memory of
/// capacity `cap` leaves the last `cap` of them, oldest first.
pub proof fn lemma_sliding_window<A>(xs: Seq<A>, cap: nat)
    requires
        cap >= 1,
    ensures
        record_all(Seq::<A>::empty(), xs, cap) == window(xs, cap),
    decreases xs.len(),
{
    if xs.len() == 0 {
        assert(window(xs, cap) == xs);
        assert(xs =~= Seq::<A>::empty());
    } else {
        lemma_sliding_window(xs.drop_last(), cap);
        lemma_window_push(xs.drop_last(), xs.last(), cap);
        assert(xs.drop_last().push(xs.last()) =~= xs);
    }
}

} // verus!

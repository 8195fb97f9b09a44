//! A bounded replay history: the most recent events, oldest first.

use vstd::prelude::*;

use crate::domain::models::memory::window;

verus! {

/// The replayable history of a bus: at most `cap` of the latest events.
#[derive(Debug)]
pub struct BusHistory<T> {
    events: Vec<T>,
    cap: usize,
}

impl<T> BusHistory<T> {
    #[verifier::type_invariant]
    spec fn bounded(self) -> bool {
        &&& self.cap >= 1
        &&& self.events@.len() <= self.cap
    }

    /// The retained events, oldest first.
    pub closed spec fn contents(&self) -> Seq<T> {
        self.events@
    }

    /// How many events are retained at most.
    pub closed spec fn limit(&self) -> nat {
        self.cap as nat
    }

    /// An empty history keeping the `history_cap` most recent events (at
    /// least one).
    pub fn new(history_cap: usize) -> (r: Self)
        ensures
            r.limit() == if history_cap == 0 { 1 } else { history_cap as nat },
            r.contents() == Seq::<T>::empty(),
    {
        let cap = if history_cap == 0 { 1 } else { history_cap };
        BusHistory { events: Vec::new(), cap }
    }

    /// Record a published event, dropping the oldest when the history is full.
    pub fn record(&mut self, event: T)
        ensures
            final(self).limit() == old(self).limit(),
            final(self).contents() == window(old(self).contents().push(event), old(self).limit()),
    {
        proof {
            use_type_invariant(&*self);
        }
        let ghost before = self.events@;
        let ghost e = event;
        let mut events: Vec<T> = Vec::new();
        std::mem::swap(&mut events, &mut self.events);
        if events.len() == self.cap {
            events.remove(0);
        }
        events.push(event);
        self.events = events;
        proof {
            let all = before.push(e);
            if before.len() == self.cap {
                assert(self.events@ =~= all.subrange(all.len() - self.cap, all.len() as int));
            } else {
                assert(self.events@ =~= all);
            }
        }
    }

    /// The retained events, oldest first.
    pub fn events(&self) -> (r: &[T])
        ensures
            r@ == self.contents(),
    {
        self.events.as_slice()
    }

    /// The number of retained events.
    pub fn len(&self) -> (r: usize)
        ensures
            r == self.contents().len(),
            r <= self.limit(),
    {
        proof {
            use_type_invariant(self);
        }
        self.events.len()
    }
}

} // verus!

//! The set of pollers that one process runs, one per configured database.
use vstd::prelude::*;
use crate::poller::{step_spec, Action, Event, Phase, Poller};

verus! {

/// Every poller of the process, each driven by its own loop.
pub struct Supervisor {
    pub pollers: Vec<Poller>,
}

/// Delivering event `e` to poller `i` moves `s` to `t` with action `a`,
/// leaving every other poller as it was.
pub open spec fn deliver_spec(s: Supervisor, i: int, e: Event, t: Supervisor, a: Action) -> bool {
    &&& t.pollers@.len() == s.pollers@.len()
    &&& step_spec(s.pollers@[i], e, t.pollers@[i], a)
    &&& forall|j: int| 0 <= j < s.pollers@.len() && j != i ==> t.pollers@[j] == s.pollers@[j]
}

impl Supervisor {
    /// Every poller is well formed.
    pub open spec fn wf(&self) -> bool {
        forall|i: int| 0 <= i < self.pollers@.len() ==> (#[trigger] self.pollers@[i]).wf()
    }

    /// One poller about to connect for each of `n` databases.
    pub fn new(n: usize) -> (r: Supervisor)
        ensures
            r.wf(),
            r.pollers@.len() == n,
            forall|i: int|
                0 <= i < n ==> (#[trigger] r.pollers@[i]).phase == Phase::Connecting
                    && r.pollers@[i].previous@.is_empty(),
    {
        let mut pollers: Vec<Poller> = Vec::new();
        let mut k: usize = 0;
        while k < n
            invariant
                k <= n,
                pollers@.len() == k,
                forall|i: int|
                    0 <= i < k ==> (#[trigger] pollers@[i]).wf() && pollers@[i].phase
                        == Phase::Connecting && pollers@[i].previous@.is_empty(),
            decreases n - k,
        {
            pollers.push(Poller::new());
            k = k + 1;
        }
        Supervisor { pollers }
    }

    /// Hands event `e` to poller `i` alone and returns that poller's action.
    pub fn deliver(&mut self, i: usize, e: Event) -> (a: Action)
        requires
            old(self).wf(),
            i < old(self).pollers@.len(),
        ensures
            final(self).wf(),
            deliver_spec(*old(self), i as int, e, *final(self), a),
    {
        let mut p = self.pollers.remove(i);
        let a = p.step(e);
        self.pollers.insert(i, p);
        proof {
            assert forall|j: int| 0 <= j < self.pollers@.len() implies (
            #[trigger] self.pollers@[j]).wf() by {
                if j < i {
                    assert(self.pollers@[j] == old(self).pollers@[j]);
                } else if j > i {
                    assert(self.pollers@[j] == old(self).pollers@[j]);
                }
            }
        }
        a
    }

    /// Whether every poller has closed or failed, so the process may exit.
    pub fn all_finished(&self) -> (r: bool)
        ensures
            r == forall|i: int|
                0 <= i < self.pollers@.len() ==> (#[trigger] self.pollers@[i]).phase
                    == Phase::Closed || self.pollers@[i].phase == Phase::Failed,
    {
        let mut k: usize = 0;
        while k < self.pollers.len()
            invariant
                k <= self.pollers@.len(),
                forall|i: int|
                    0 <= i < k ==> (#[trigger] self.pollers@[i]).phase == Phase::Closed
                        || self.pollers@[i].phase == Phase::Failed,
            decreases self.pollers@.len() - k,
        {
            if !self.pollers[k].is_done() {
                return false;
            }
            k = k + 1;
        }
        true
    }
}

/// A poller whose initial connection fails does not keep another from
/// reaching the polling phase: after poller `i` fails to connect, poller
/// `j` still connects and polls.
pub proof fn failure_is_isolated(
    s0: Supervisor,
    i: int,
    j: int,
    s1: Supervisor,
    a1: Action,
    s2: Supervisor,
    a2: Action,
)
    requires
        0 <= i < s0.pollers@.len(),
        0 <= j < s0.pollers@.len(),
        i != j,
        s0.pollers@[i].phase == Phase::Connecting,
        s0.pollers@[j].phase == Phase::Connecting,
        deliver_spec(s0, i, Event::ConnectFailed, s1, a1),
        deliver_spec(s1, j, Event::Connected, s2, a2),
    ensures
        a1 is Abort,
        s2.pollers@[i].phase == Phase::Failed,
        a2 is Wait,
        s2.pollers@[j].phase == Phase::Polling,
{
    assert(s1.pollers@[j] == s0.pollers@[j]);
    assert(s2.pollers@[i] == s1.pollers@[i]);
}

} // verus!

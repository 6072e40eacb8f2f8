use vstd::prelude::*;

verus! {

/// A barrier as a mathematical value.
pub struct BarrierState {
    /// Number of parties that have to arrive.
    pub parties: nat,
    /// Number of parties that have arrived.
    pub arrived: nat,
}

impl BarrierState {
    pub open spec fn wf(self) -> bool {
        1 <= self.parties && self.arrived <= self.parties
    }

    pub open spec fn fresh(parties: nat) -> BarrierState {
        BarrierState { parties, arrived: 0 }
    }

    /// Released exactly when all parties have arrived.
    pub open spec fn released(self) -> bool {
        self.arrived == self.parties
    }

    /// The barrier after one more party arrived.
    pub open spec fn arrive(self) -> BarrierState
        recommends
            !self.released(),
    {
        BarrierState { arrived: self.arrived + 1, ..self }
    }
}

/// The setup barrier: a single-use rendezvous of a fixed number of parties.
/// It releases when the last party arrives, and never again.
#[derive(Clone, Copy, Debug, PartialEq, Eq)]
pub struct SetupBarrier {
    parties: usize,
    arrived: usize,
}

impl View for SetupBarrier {
    type V = BarrierState;

    closed spec fn view(&self) -> BarrierState {
        BarrierState { parties: self.parties as nat, arrived: self.arrived as nat }
    }
}

impl SetupBarrier {
    pub fn new(parties: usize) -> (barrier: SetupBarrier)
        requires
            parties >= 1,
        ensures
            barrier@ == BarrierState::fresh(parties as nat),
            barrier@.wf(),
    {
        SetupBarrier { parties, arrived: 0 }
    }

    pub fn parties(&self) -> (n: usize)
        ensures
            n == self@.parties,
    {
        self.parties
    }

    pub fn arrived(&self) -> (n: usize)
        ensures
            n == self@.arrived,
    {
        self.arrived
    }

    pub fn is_released(&self) -> (released: bool)
        ensures
            released == self@.released(),
    {
        self.arrived == self.parties
    }

    /// One more party arrives. The result says whether this arrival was the
    /// last one, the one that releases the barrier.
    pub fn arrive(&mut self) -> (releases: bool)
        requires
            old(self)@.wf(),
            !old(self)@.released(),
        ensures
            final(self)@ == old(self)@.arrive(),
            final(self)@.wf(),
            releases == final(self)@.released(),
    {
        self.arrived = self.arrived + 1;
        self.arrived == self.parties
    }
}

/// The barrier releases exactly once: the arrival that completes the party
/// releases it, no earlier arrival does, and after it nobody is left to
/// arrive.
pub proof fn lemma_releases_with_last_arrival(barrier: BarrierState)
    requires
        barrier.wf(),
        !barrier.released(),
    ensures
        barrier.arrive().wf(),
        barrier.arrive().released() <==> barrier.arrived + 1 == barrier.parties,
        barrier.arrive().released() ==> barrier.arrive().arrived == barrier.arrive().parties,
{
}

} // verus!

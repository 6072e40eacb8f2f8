use vstd::prelude::*;

verus! {

/// A permit pool as a mathematical value.
pub struct PoolState {
    /// Number of permits the pool was made with.
    pub size: nat,
    /// Number of permits that are free now.
    pub free: nat,
}

impl PoolState {
    /// Never more permits free than the pool was made with.
    pub open spec fn wf(self) -> bool {
        self.free <= self.size
    }

    pub open spec fn full(size: nat) -> PoolState {
        PoolState { size, free: size }
    }

    /// Number of permits that are out with tasks now.
    pub open spec fn held(self) -> nat {
        (self.size - self.free) as nat
    }

    /// The pool after one free permit was taken.
    pub open spec fn acquire(self) -> PoolState
        recommends
            self.free > 0,
    {
        PoolState { free: (self.free - 1) as nat, ..self }
    }

    /// The pool after one held permit came back.
    pub open spec fn release(self) -> PoolState
        recommends
            self.held() > 0,
    {
        PoolState { free: self.free + 1, ..self }
    }
}

/// The admission controller: a pool of a fixed number of permits. A task
/// holds one permit from its admission until its start call has returned.
#[derive(Clone, Copy, Debug, PartialEq, Eq)]
pub struct PermitPool {
    capacity: usize,
    available: usize,
}

impl View for PermitPool {
    type V = PoolState;

    closed spec fn view(&self) -> PoolState {
        PoolState { size: self.capacity as nat, free: self.available as nat }
    }
}

impl PermitPool {
    pub fn new(capacity: usize) -> (pool: PermitPool)
        ensures
            pool@ == PoolState::full(capacity as nat),
            pool@.wf(),
    {
        PermitPool { capacity, available: capacity }
    }

    pub fn capacity(&self) -> (n: usize)
        ensures
            n == self@.size,
    {
        self.capacity
    }

    pub fn available(&self) -> (n: usize)
        ensures
            n == self@.free,
    {
        self.available
    }

    pub fn in_use(&self) -> (n: usize)
        requires
            self@.wf(),
        ensures
            n == self@.held(),
    {
        self.capacity - self.available
    }

    /// Takes one permit if one is free. A caller that gets `false` has to
    /// wait for a release.
    pub fn try_acquire(&mut self) -> (granted: bool)
        requires
            old(self)@.wf(),
        ensures
            granted == (old(self)@.free > 0),
            final(self)@ == (if granted { old(self)@.acquire() } else { old(self)@ }),
            final(self)@.wf(),
    {
        if self.available > 0 {
            self.available = self.available - 1;
            true
        } else {
            false
        }
    }

    /// Gives back one permit that an earlier `try_acquire` granted.
    pub fn release(&mut self)
        requires
            old(self)@.wf(),
            old(self)@.held() > 0,
        ensures
            final(self)@ == old(self)@.release(),
            final(self)@.wf(),
    {
        self.available = self.available + 1;
    }
}

/// Every permit is either free or held, so never more are held than the
/// pool was made with.
pub proof fn lemma_held_bounded(pool: PoolState)
    requires
        pool.wf(),
    ensures
        pool.held() + pool.free == pool.size,
        pool.held() <= pool.size,
{
}

/// Taking a permit and giving it back leaves the pool as it was, and in
/// between exactly one more permit is held.
pub proof fn lemma_acquire_then_release(pool: PoolState)
    requires
        pool.wf(),
        pool.free > 0,
    ensures
        pool.acquire().wf(),
        pool.acquire().held() == pool.held() + 1,
        pool.acquire().release() == pool,
{
}

} // verus!

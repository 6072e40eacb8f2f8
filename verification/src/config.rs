use vstd::prelude::*;

verus! {

/// What one run is configured with.
#[derive(Clone, Copy, Debug, PartialEq, Eq, Structural)]
pub struct RunConfig {
    /// Total number of tasks to drive.
    pub count: usize,
    /// Size of the admission pool; zero means no limit.
    pub parallel: usize,
    /// Budget of the measurement phase in nanoseconds; zero means none.
    pub timeout_nanos: u64,
}

impl RunConfig {
    /// Number of permits the admission pool is made with: the configured
    /// parallelism, or the task count where the parallelism is unbounded.
    pub open spec fn capacity(self) -> nat {
        if self.parallel == 0 {
            self.count as nat
        } else {
            self.parallel as nat
        }
    }

    /// Number of parties of the setup barrier: every task and the
    /// orchestrator itself.
    pub open spec fn parties(self) -> nat {
        self.count as nat + 1
    }

    /// Whether the measurement phase has a time budget at all.
    pub open spec fn has_timeout(self) -> bool {
        self.timeout_nanos != 0
    }

    pub fn new(count: usize, parallel: usize, timeout_nanos: u64) -> (config: RunConfig)
        ensures
            config.count == count,
            config.parallel == parallel,
            config.timeout_nanos == timeout_nanos,
    {
        RunConfig { count, parallel, timeout_nanos }
    }

    pub fn permit_capacity(&self) -> (permits: usize)
        ensures
            permits == self.capacity(),
    {
        if self.parallel == 0 {
            self.count
        } else {
            self.parallel
        }
    }

    /// The barrier's party count, or `None` where it does not fit the
    /// machine's word.
    pub fn barrier_parties(&self) -> (parties: Option<usize>)
        ensures
            parties == (if self.parties() <= usize::MAX {
                Some(self.parties() as usize)
            } else {
                None
            }),
    {
        self.count.checked_add(1)
    }

    pub fn watchdog_enabled(&self) -> (enabled: bool)
        ensures
            enabled == self.has_timeout(),
    {
        self.timeout_nanos != 0
    }
}

} // verus!

use vstd::prelude::*;
use crate::arbiter::{Arbiter, ArbiterState, Event, Notice, Stop};
use crate::barrier::{BarrierState, SetupBarrier};
use crate::census::{counted, lemma_tally_bounds, lemma_tally_update, tally, Census};
use crate::config::RunConfig;
use crate::driver::{Driver, Outcome, StepResult};
use crate::pool::{PermitPool, PoolState};
use crate::report::RunReport;

verus! {

/// One thing that can happen in a run.
#[derive(Clone, Copy, Debug, PartialEq, Eq, Structural)]
pub enum Move {
    /// The operation that `task` was waiting for ended with `result` at
    /// time `now`.
    Step { task: usize, result: StepResult, now: u64 },
    WatchdogFired,
    Interrupt,
}

/// A whole run as a mathematical value: every driver, the pool and the
/// barrier they share, and the arbiter that hears of their outcomes.
pub struct HarnessState {
    pub config: RunConfig,
    pub pool: PoolState,
    pub barrier: BarrierState,
    pub drivers: Seq<Driver>,
    /// For each task, the instant at which its construct step ended.
    pub setup_done_at: Seq<Option<u64>>,
    pub arbiter: ArbiterState,
    /// The latest instant that the run has seen.
    pub clock: u64,
}

impl HarnessState {
    /// The state right after the tasks were spawned: every driver is
    /// constructing its task, the orchestrator has arrived at the barrier,
    /// and all permits are free. With no task at all the stream of outcomes
    /// is at its end from the first moment, and the loop has stopped before
    /// any measurement began.
    pub open spec fn initial(config: RunConfig) -> HarnessState {
        let arbiter = ArbiterState::initial(config.count as nat, config.timeout_nanos as nat);
        HarnessState {
            config,
            pool: PoolState::full(config.capacity()),
            barrier: BarrierState::fresh(config.parties()).arrive(),
            drivers: Seq::new(config.count as nat, |i: int| Driver::Constructing),
            setup_done_at: Seq::new(config.count as nat, |i: int| None),
            arbiter: if config.count == 0 {
                arbiter.step(Event::StreamExhausted)
            } else {
                arbiter
            },
            clock: 0,
        }
    }

    /// The parts fit the configuration and each is valid by itself.
    pub open spec fn well_sized(self) -> bool {
        &&& self.config.count < usize::MAX
        &&& self.drivers.len() == self.config.count
        &&& self.setup_done_at.len() == self.config.count
        &&& self.pool.wf()
        &&& self.pool.size == self.config.capacity()
        &&& self.barrier.wf()
        &&& self.barrier.parties == self.config.parties()
        &&& self.arbiter.wf()
        &&& self.arbiter.total == self.config.count
        &&& self.arbiter.timeout == self.config.timeout_nanos
    }

    /// The shared parts say of the drivers what the drivers say themselves:
    /// as many permits are out as drivers hold one, the barrier has seen the
    /// orchestrator and every driver that is past its construct step, and
    /// the arbiter has counted every lifecycle that ended.
    pub open spec fn accounts_agree(self) -> bool {
        &&& self.pool.held() == tally(self.drivers, Census::HoldingPermit)
        &&& self.barrier.arrived == 1 + tally(self.drivers, Census::Arrived)
        &&& self.arbiter.success == tally(self.drivers, Census::Succeeded)
        &&& self.arbiter.failed == tally(self.drivers, Census::Failed)
    }

    /// Setup comes first: no driver is past the barrier before it released,
    /// the instants of the construct steps are on record, and the
    /// measurement began when the barrier released, after all of them.
    pub open spec fn setup_precedes_measurement(self) -> bool {
        &&& forall|i: int|
            0 <= i < self.drivers.len() && (#[trigger] self.drivers[i]).rank() >= 2
                ==> self.barrier.released()
        &&& forall|i: int|
            0 <= i < self.drivers.len() ==> ((#[trigger] self.setup_done_at[i]) is Some
                <==> self.drivers[i].past_construct())
        &&& forall|i: int|
            0 <= i < self.drivers.len() ==> ((#[trigger] self.setup_done_at[i]) matches Some(t)
                ==> t <= self.clock)
        &&& self.arbiter.start matches Some(start) ==> {
            &&& start <= self.clock
            &&& self.barrier.released()
            &&& forall|i: int|
                0 <= i < self.drivers.len() ==> ((#[trigger] self.setup_done_at[i]) matches Some(t)
                    && t <= start)
        }
        &&& self.barrier.released() && self.config.count > 0 ==> self.arbiter.start is Some
    }

    /// The loop stops for the end of the stream exactly when every outcome
    /// is in.
    pub open spec fn stops_when_all_reported(self) -> bool {
        self.arbiter.stop == Some(Stop::AllReported) <==> self.arbiter.pending() == 0
    }

    /// What holds of a run at every moment.
    pub open spec fn wf(self) -> bool {
        &&& self.well_sized()
        &&& self.accounts_agree()
        &&& self.setup_precedes_measurement()
        &&& self.stops_when_all_reported()
    }

    /// Whether the operation that `task` is waiting for can end with
    /// `result` now. Nothing moves once the loop has stopped: the drivers
    /// are abandoned where they are. Before that, a driver leaves the
    /// barrier only once it released, gets a permit only while one is free,
    /// and a finished driver has nothing left to do.
    pub open spec fn enabled(self, task: int, result: StepResult) -> bool {
        &&& !self.arbiter.stopped()
        &&& 0 <= task < self.drivers.len()
        &&& match self.drivers[task] {
            Driver::Rendezvous { .. } => self.barrier.released(),
            Driver::Admission => result == StepResult::Failed || self.pool.free > 0,
            Driver::Finished(_) => false,
            _ => true,
        }
    }

    /// The instant that a step at `now` is taken to happen at: time does
    /// not run backwards.
    pub open spec fn instant(self, now: u64) -> u64 {
        if now > self.clock {
            now
        } else {
            self.clock
        }
    }

    /// The state after the operation that `task` was waiting for ended with
    /// `result` at time `now`. The driver moves on by its own rule. Around
    /// it: the end of a construct step is an arrival at the barrier, and the
    /// last arrival starts the measurement; admission takes a permit and the
    /// end of the start phase gives it back; the end of a lifecycle is told
    /// to the arbiter, and with the last one the stream is at its end.
    pub open spec fn complete(self, task: int, result: StepResult, now: u64) -> HarnessState {
        if !self.enabled(task, result) {
            self
        } else {
            let at = self.instant(now);
            let before = self.drivers[task];
            let after = before.next(result);
            let barrier = if before is Constructing {
                self.barrier.arrive()
            } else {
                self.barrier
            };
            let pool = if before is Admission && after is Creating {
                self.pool.acquire()
            } else if before.directive(result).release_permit {
                self.pool.release()
            } else {
                self.pool
            };
            let heard = if before is Constructing && barrier.released() {
                self.arbiter.step(Event::BarrierReleased { now: at })
            } else if after is Finished {
                self.arbiter.step(Event::Completed(after->0))
            } else {
                self.arbiter
            };
            HarnessState {
                config: self.config,
                pool,
                barrier,
                drivers: self.drivers.update(task, after),
                setup_done_at: if before is Constructing {
                    self.setup_done_at.update(task, Some(at))
                } else {
                    self.setup_done_at
                },
                arbiter: if heard.pending() == 0 {
                    heard.step(Event::StreamExhausted)
                } else {
                    heard
                },
                clock: at,
            }
        }
    }

    /// What is shown for that step.
    pub open spec fn notice(self, task: int, result: StepResult, now: u64) -> Notice {
        if !self.enabled(task, result) {
            Notice::Nothing
        } else {
            let before = self.drivers[task];
            if before is Constructing && self.barrier.arrive().released() {
                self.arbiter.notice(Event::BarrierReleased { now: self.instant(now) })
            } else if before.next(result) is Finished {
                self.arbiter.notice(Event::Completed(before.next(result)->0))
            } else {
                Notice::Nothing
            }
        }
    }

    /// The state after the watchdog fired or the operator interrupted.
    pub open spec fn signal(self, event: Event) -> HarnessState
        recommends
            event == Event::WatchdogFired || event == Event::Interrupt,
    {
        HarnessState { arbiter: self.arbiter.step(event), ..self }
    }

    pub open spec fn report(self, now: u64) -> RunReport {
        self.arbiter.report(self.instant(now) as nat)
    }

    /// The state after one move.
    pub open spec fn apply(self, m: Move) -> HarnessState {
        match m {
            Move::Step { task, result, now } => self.complete(task as int, result, now),
            Move::WatchdogFired => self.signal(Event::WatchdogFired),
            Move::Interrupt => self.signal(Event::Interrupt),
        }
    }

    /// The state after all of `moves`, taken in order.
    pub open spec fn after(self, moves: Seq<Move>) -> HarnessState
        decreases moves.len(),
    {
        if moves.len() == 0 {
            self
        } else {
            self.after(moves.drop_last()).apply(moves.last())
        }
    }

    /// Number of drivers that hold a permit.
    pub open spec fn holders(self) -> nat {
        tally(self.drivers, Census::HoldingPermit)
    }
}

/// A run begins in a valid state.
pub proof fn lemma_initial_wf(config: RunConfig)
    requires
        config.count < usize::MAX,
    ensures
        HarnessState::initial(config).wf(),
{
    let h = HarnessState::initial(config);
    lemma_tally_bounds(h.drivers, Census::HoldingPermit);
    lemma_tally_bounds(h.drivers, Census::Arrived);
    lemma_tally_bounds(h.drivers, Census::Succeeded);
    lemma_tally_bounds(h.drivers, Census::Failed);
}

/// Every step of every task keeps the run valid, whatever the order in
/// which the tasks move.
pub proof fn lemma_complete_keeps_wf(h: HarnessState, task: int, result: StepResult, now: u64)
    requires
        h.wf(),
    ensures
        h.complete(task, result, now).wf(),
{
    if h.enabled(task, result) {
        let before = h.drivers[task];
        let after = before.next(result);
        let next = h.complete(task, result, now);
        lemma_tally_update(h.drivers, task, after, Census::HoldingPermit);
        lemma_tally_update(h.drivers, task, after, Census::Arrived);
        lemma_tally_update(h.drivers, task, after, Census::Succeeded);
        lemma_tally_update(h.drivers, task, after, Census::Failed);
        lemma_tally_bounds(h.drivers, Census::Arrived);
        lemma_tally_bounds(next.drivers, Census::Arrived);
        assert(next.well_sized());
        assert(next.accounts_agree());
        assert(next.stops_when_all_reported());
        assert forall|i: int|
            0 <= i < next.drivers.len() && (#[trigger] next.drivers[i]).rank() >= 2
                implies next.barrier.released() by {
            if i != task {
                assert(h.drivers[i].rank() >= 2);
            }
        }
        assert forall|i: int| 0 <= i < next.drivers.len() implies ((
        #[trigger] next.setup_done_at[i]) is Some <==> next.drivers[i].past_construct()) by {
            assert(h.setup_done_at[i] is Some <==> h.drivers[i].past_construct());
        }
        assert forall|i: int| 0 <= i < next.drivers.len() implies ((
        #[trigger] next.setup_done_at[i]) matches Some(t) ==> t <= next.clock) by {
            assert(h.setup_done_at[i] matches Some(t) ==> t <= h.clock);
        }
        if next.arbiter.start is Some {
            let start = next.arbiter.start->0;
            assert forall|i: int| 0 <= i < next.drivers.len() implies ((
            #[trigger] next.setup_done_at[i]) matches Some(t) && t <= start) by {
                assert(h.setup_done_at[i] is Some <==> h.drivers[i].past_construct());
                assert(h.setup_done_at[i] matches Some(t) ==> t <= h.clock);
                if h.arbiter.start is Some {
                    assert(h.setup_done_at[i] matches Some(t) && t <= start);
                    assert(!(before is Constructing)) by {
                        assert(h.setup_done_at[task] is Some);
                    }
                } else {
                    assert(counted(next.drivers[i], Census::Arrived));
                }
            }
        }
        assert(next.setup_precedes_measurement());
    }
}

/// A signal keeps the run valid too.
pub proof fn lemma_signal_keeps_wf(h: HarnessState, event: Event)
    requires
        h.wf(),
        event == Event::WatchdogFired || event == Event::Interrupt,
    ensures
        h.signal(event).wf(),
{
}

/// Every run is valid at every moment: whatever happens, in whatever order,
/// the state that is reached is a valid one.
pub proof fn lemma_every_run_is_valid(config: RunConfig, moves: Seq<Move>)
    requires
        config.count < usize::MAX,
    ensures
        HarnessState::initial(config).after(moves).wf(),
        HarnessState::initial(config).after(moves).config == config,
    decreases moves.len(),
{
    let first = HarnessState::initial(config);
    if moves.len() == 0 {
        lemma_initial_wf(config);
    } else {
        lemma_every_run_is_valid(config, moves.drop_last());
        let h = first.after(moves.drop_last());
        match moves.last() {
            Move::Step { task, result, now } => {
                lemma_complete_keeps_wf(h, task as int, result, now);
            },
            Move::WatchdogFired => {
                lemma_signal_keeps_wf(h, Event::WatchdogFired);
            },
            Move::Interrupt => {
                lemma_signal_keeps_wf(h, Event::Interrupt);
            },
        }
    }
}

/// A step that is enabled moves its task forward and leaves every other
/// driver where it is; one that is not enabled changes nothing at all.
pub proof fn lemma_step_moves_one_task(h: HarnessState, task: int, result: StepResult, now: u64)
    requires
        h.wf(),
    ensures
        !h.enabled(task, result) ==> h.complete(task, result, now) == h,
        h.enabled(task, result) ==> {
            &&& h.complete(task, result, now).drivers[task] == h.drivers[task].next(result)
            &&& h.complete(task, result, now).drivers[task].rank() > h.drivers[task].rank()
            &&& forall|other: int|
                0 <= other < h.drivers.len() && other != task ==> #[trigger] h.complete(
                    task,
                    result,
                    now,
                ).drivers[other] == h.drivers[other]
        },
{
}

/// At no moment do more tasks hold a permit than the pool was made with:
/// the configured parallelism, or the task count where that is unbounded.
pub proof fn lemma_permits_never_exceed_capacity(h: HarnessState)
    requires
        h.wf(),
    ensures
        tally(h.drivers, Census::HoldingPermit) == h.pool.held(),
        tally(h.drivers, Census::HoldingPermit) <= (if h.config.parallel == 0 {
            h.config.count
        } else {
            h.config.parallel
        }),
{
}

/// The measurement never starts before setup is over: once a start instant
/// is on record, every task's construct step has ended, at an instant that
/// is on record too and is not later than the start.
pub proof fn lemma_measurement_starts_after_setup(h: HarnessState, task: int)
    requires
        h.wf(),
        h.arbiter.start is Some,
        0 <= task < h.config.count,
    ensures
        h.drivers[task].past_construct(),
        h.setup_done_at[task] matches Some(done) && done <= h.arbiter.start->0,
{
    assert(h.setup_done_at[task] matches Some(t) && t <= h.arbiter.start->0);
}

/// All construct steps come before any admission: while any driver is past
/// the barrier, or the watchdog is armed, the barrier has released and no
/// driver is still constructing its task.
pub proof fn lemma_setup_comes_first(h: HarnessState, task: int)
    requires
        h.wf(),
        0 <= task < h.config.count,
        h.drivers[task].rank() >= 2 || h.arbiter.armed(),
    ensures
        h.barrier.released(),
        forall|other: int|
            0 <= other < h.drivers.len() ==> (#[trigger] h.drivers[other]).past_construct(),
{
    lemma_tally_bounds(h.drivers, Census::Arrived);
    assert forall|other: int| 0 <= other < h.drivers.len() implies (
    #[trigger] h.drivers[other]).past_construct() by {
        assert(counted(h.drivers[other], Census::Arrived));
    }
}

/// Where every lifecycle of a run with at least one task has succeeded, the
/// loop has stopped because all had reported, and the summary is a success
/// that counts every task and carries the time since the measurement
/// began. Where that time is more than nothing, a throughput exists.
pub proof fn lemma_all_succeeded_is_success(h: HarnessState, now: u64)
    requires
        h.wf(),
        h.config.count > 0,
        forall|i: int|
            0 <= i < h.drivers.len() ==> #[trigger] h.drivers[i] == Driver::Finished(
                Outcome::Succeeded,
            ),
    ensures
        h.arbiter.stop == Some(Stop::AllReported),
        h.arbiter.start is Some,
        h.report(now) == (RunReport::Success {
            total: h.config.count,
            elapsed_nanos: Some((h.instant(now) - h.arbiter.start->0) as u64),
        }),
        h.report(now).counts().success == h.config.count,
        h.report(now).counts().failed == 0,
        h.report(now).counts().incomplete == 0,
        h.instant(now) > h.arbiter.start->0 ==> h.report(now).measurable(),
{
    lemma_tally_bounds(h.drivers, Census::Succeeded);
    assert forall|i: int| 0 <= i < h.drivers.len() implies counted(
        #[trigger] h.drivers[i],
        Census::Succeeded,
    ) by {
        assert(h.drivers[i] == Driver::Finished(Outcome::Succeeded));
    }
    assert(h.drivers[0].rank() >= 2);
}

/// Where the loop stopped for the watchdog or for an interrupt, at least one
/// task never reported: the summary is a failure with a positive count of
/// incomplete tasks.
pub proof fn lemma_early_stop_leaves_incomplete(h: HarnessState, now: u64)
    requires
        h.wf(),
        h.arbiter.stop == Some(Stop::Timeout) || h.arbiter.stop == Some(Stop::Interrupted),
    ensures
        h.report(now) is Failure,
        h.report(now).counts().incomplete == h.arbiter.pending(),
        h.report(now).counts().incomplete > 0,
        tally(h.drivers, Census::Succeeded) + tally(h.drivers, Census::Failed) < h.config.count,
{
}

/// The watchdog in particular: where it fires while it is armed, the run
/// ends with at least one task incomplete, and no later step of any task
/// changes the run any more.
pub proof fn lemma_timeout_leaves_incomplete(
    h: HarnessState,
    task: int,
    result: StepResult,
    now: u64,
)
    requires
        h.wf(),
        h.arbiter.armed(),
    ensures
        h.signal(Event::WatchdogFired).arbiter.stop == Some(Stop::Timeout),
        h.signal(Event::WatchdogFired).report(now).counts().incomplete > 0,
        h.signal(Event::WatchdogFired).complete(task, result, now) == h.signal(
            Event::WatchdogFired,
        ),
{
    lemma_signal_keeps_wf(h, Event::WatchdogFired);
    lemma_early_stop_leaves_incomplete(h.signal(Event::WatchdogFired), now);
}

/// The start phase of a task gives back what it took: admission takes one
/// permit, and when the create call has failed, or the start call has
/// returned with either result, the pool is as it was before the admission
/// and the task holds no permit.
pub proof fn lemma_start_phase_returns_permit(
    h: HarnessState,
    task: int,
    create: StepResult,
    start: StepResult,
    now: u64,
)
    requires
        h.wf(),
        h.enabled(task, StepResult::Done),
        h.drivers[task] is Admission,
    ensures
        ({
            let admitted = h.complete(task, StepResult::Done, now);
            let created = admitted.complete(task, create, now);
            let ended = if create == StepResult::Failed {
                created
            } else {
                created.complete(task, start, now)
            };
            &&& admitted.drivers[task].holds_permit()
            &&& admitted.pool.free + 1 == h.pool.free
            &&& admitted.pool.held() == h.pool.held() + 1
            &&& create == StepResult::Done ==> created.drivers[task].holds_permit() && created.pool
                == admitted.pool
            &&& !ended.drivers[task].holds_permit()
            &&& ended.pool == h.pool
        }),
{
    let admitted = h.complete(task, StepResult::Done, now);
    lemma_complete_keeps_wf(h, task, StepResult::Done, now);
    let created = admitted.complete(task, create, now);
    lemma_complete_keeps_wf(admitted, task, create, now);
    assert(admitted.enabled(task, create));
    if create == StepResult::Done {
        assert(created.enabled(task, start));
    }
}

/// No deadlock: as long as the loop has not stopped, some task can move.
/// Before the barrier releases a task is still constructing; after it,
/// a task that waits for a permit waits only while another one holds it.
pub proof fn lemma_some_task_can_move(h: HarnessState)
    requires
        h.wf(),
        !h.arbiter.stopped(),
    ensures
        exists|task: int| #[trigger] h.enabled(task, StepResult::Done),
{
    lemma_tally_bounds(h.drivers, Census::Arrived);
    lemma_tally_bounds(h.drivers, Census::HoldingPermit);
    lemma_tally_bounds(h.drivers, Census::Succeeded);
    lemma_tally_bounds(h.drivers, Census::Failed);
    if !h.barrier.released() {
        let task = choose|i: int|
            0 <= i < h.drivers.len() && !counted(#[trigger] h.drivers[i], Census::Arrived);
        assert(h.enabled(task, StepResult::Done));
    } else if h.pool.free == 0 {
        let task = choose|i: int|
            0 <= i < h.drivers.len() && counted(#[trigger] h.drivers[i], Census::HoldingPermit);
        assert(h.enabled(task, StepResult::Done));
    } else {
        if forall|i: int| 0 <= i < h.drivers.len() ==> (#[trigger] h.drivers[i]).finished() {
            lemma_finished_are_counted(h.drivers);
        }
        let task = choose|i: int| 0 <= i < h.drivers.len() && !(#[trigger] h.drivers[i]).finished();
        assert(h.enabled(task, StepResult::Done));
    }
}

/// Where every driver is finished, the successes and the failures are all
/// the drivers there are.
pub proof fn lemma_finished_are_counted(drivers: Seq<Driver>)
    requires
        forall|i: int| 0 <= i < drivers.len() ==> (#[trigger] drivers[i]).finished(),
    ensures
        tally(drivers, Census::Succeeded) + tally(drivers, Census::Failed) == drivers.len(),
    decreases drivers.len(),
{
    if drivers.len() > 0 {
        let front = drivers.drop_last();
        assert forall|i: int| 0 <= i < front.len() implies (#[trigger] front[i]).finished() by {
            assert(drivers[i].finished());
        }
        lemma_finished_are_counted(front);
        assert(drivers[drivers.len() - 1].finished());
    }
}

/// Said of runs: at every moment of every run, no more tasks hold a permit
/// than the pool was made with.
pub proof fn lemma_run_permits_bounded(config: RunConfig, moves: Seq<Move>)
    requires
        config.count < usize::MAX,
    ensures
        HarnessState::initial(config).after(moves).holders() <= (if config.parallel == 0 {
            config.count
        } else {
            config.parallel
        }),
{
    lemma_every_run_is_valid(config, moves);
    lemma_permits_never_exceed_capacity(HarnessState::initial(config).after(moves));
}

/// Said of runs: in every run, a measurement that has started did so at or
/// after the end of every task's construct step.
pub proof fn lemma_run_measures_after_setup(config: RunConfig, moves: Seq<Move>, task: int)
    requires
        config.count < usize::MAX,
        0 <= task < config.count,
    ensures
        ({
            let h = HarnessState::initial(config).after(moves);
            h.arbiter.start matches Some(start) ==> (h.setup_done_at[task] matches Some(done)
                && done <= start)
        }),
{
    let h = HarnessState::initial(config).after(moves);
    lemma_every_run_is_valid(config, moves);
    if h.arbiter.start is Some {
        lemma_measurement_starts_after_setup(h, task);
    }
}

/// Said of runs: at every moment of every run, the successes, the failures
/// and the incomplete tasks of the summary add up to the number of tasks.
pub proof fn lemma_run_accounts_for_every_task(config: RunConfig, moves: Seq<Move>, now: u64)
    requires
        config.count < usize::MAX,
    ensures
        ({
            let counts = HarnessState::initial(config).after(moves).report(now).counts();
            counts.success + counts.failed + counts.incomplete == config.count
        }),
{
    lemma_every_run_is_valid(config, moves);
}

/// Said of runs: a run that the watchdog stopped has at least one task that
/// never reported, and is not a success.
pub proof fn lemma_run_timeout_leaves_incomplete(config: RunConfig, moves: Seq<Move>, now: u64)
    requires
        config.count < usize::MAX,
        HarnessState::initial(config).after(moves).arbiter.stop == Some(Stop::Timeout),
    ensures
        HarnessState::initial(config).after(moves).report(now).counts().incomplete > 0,
        !HarnessState::initial(config).after(moves).report(now).succeeded(),
{
    lemma_every_run_is_valid(config, moves);
    lemma_early_stop_leaves_incomplete(HarnessState::initial(config).after(moves), now);
}

/// Said of runs: a run of at least one task in which every lifecycle has
/// succeeded reports every task as a success and none as incomplete, with a
/// measurement; where the clock has moved on since the measurement began, a
/// throughput exists.
pub proof fn lemma_run_of_successes_succeeds(config: RunConfig, moves: Seq<Move>, now: u64)
    requires
        0 < config.count < usize::MAX,
        forall|i: int|
            0 <= i < config.count ==> #[trigger] HarnessState::initial(config).after(
                moves,
            ).drivers[i] == Driver::Finished(Outcome::Succeeded),
    ensures
        ({
            let h = HarnessState::initial(config).after(moves);
            &&& h.arbiter.stop == Some(Stop::AllReported)
            &&& h.report(now).counts().success == config.count
            &&& h.report(now).counts().incomplete == 0
            &&& h.report(now) matches RunReport::Success { elapsed_nanos: Some(_), .. }
            &&& h.arbiter.start matches Some(start) && (h.instant(now) > start ==> h.report(
                now,
            ).measurable())
        }),
{
    lemma_every_run_is_valid(config, moves);
    lemma_all_succeeded_is_success(HarnessState::initial(config).after(moves), now);
}

/// A run in progress. The caller, who plays the backend and the scheduler,
/// says which task's operation ended and how; the harness moves that driver
/// and the shared parts, and hands back what to show.
#[derive(Debug)]
pub struct Harness {
    config: RunConfig,
    pool: PermitPool,
    barrier: SetupBarrier,
    drivers: Vec<Driver>,
    setup_done_at: Vec<Option<u64>>,
    arbiter: Arbiter,
    clock: u64,
}

impl View for Harness {
    type V = HarnessState;

    closed spec fn view(&self) -> HarnessState {
        HarnessState {
            config: self.config,
            pool: self.pool@,
            barrier: self.barrier@,
            drivers: self.drivers@,
            setup_done_at: self.setup_done_at@,
            arbiter: self.arbiter@,
            clock: self.clock,
        }
    }
}

impl Harness {
    /// Spawns the drivers of a run. There is no run for a task count so
    /// large that the barrier's parties cannot be counted.
    pub fn launch(config: RunConfig) -> (run: Option<Harness>)
        ensures
            run is Some <==> config.count < usize::MAX,
            run matches Some(h) ==> h@ == HarnessState::initial(config) && h@.wf(),
    {
        let parties = match config.barrier_parties() {
            Some(parties) => parties,
            None => {
                return None;
            },
        };
        let mut drivers: Vec<Driver> = Vec::new();
        let mut setup_done_at: Vec<Option<u64>> = Vec::new();
        let mut spawned: usize = 0;
        while spawned < config.count
            invariant
                spawned <= config.count,
                drivers@ =~= Seq::new(spawned as nat, |i: int| Driver::Constructing),
                setup_done_at@ =~= Seq::new(spawned as nat, |i: int| None::<u64>),
            decreases config.count - spawned,
        {
            drivers.push(Driver::Constructing);
            setup_done_at.push(None);
            spawned = spawned + 1;
        }
        let mut barrier = SetupBarrier::new(parties);
        barrier.arrive();
        let mut arbiter = Arbiter::new(&config);
        if config.count == 0 {
            arbiter.on_event(Event::StreamExhausted);
        }
        let run = Harness {
            config,
            pool: PermitPool::new(config.permit_capacity()),
            barrier,
            drivers,
            setup_done_at,
            arbiter,
            clock: 0,
        };
        proof {
            lemma_initial_wf(config);
            assert(run@.drivers =~= HarnessState::initial(config).drivers);
            assert(run@.setup_done_at =~= HarnessState::initial(config).setup_done_at);
        }
        Some(run)
    }

    pub fn config(&self) -> (config: RunConfig)
        ensures
            config == self@.config,
    {
        self.config
    }

    pub fn pool(&self) -> (pool: PermitPool)
        ensures
            pool@ == self@.pool,
    {
        self.pool
    }

    pub fn barrier(&self) -> (barrier: SetupBarrier)
        ensures
            barrier@ == self@.barrier,
    {
        self.barrier
    }

    pub fn arbiter(&self) -> (arbiter: Arbiter)
        ensures
            arbiter@ == self@.arbiter,
    {
        self.arbiter
    }

    pub fn clock(&self) -> (clock: u64)
        ensures
            clock == self@.clock,
    {
        self.clock
    }

    /// The driver of `task`, where there is such a task.
    pub fn driver(&self, task: usize) -> (driver: Option<Driver>)
        ensures
            driver == (if task < self@.drivers.len() {
                Some(self@.drivers[task as int])
            } else {
                None
            }),
    {
        if task < self.drivers.len() {
            Some(self.drivers[task])
        } else {
            None
        }
    }

    /// The instant at which the construct step of `task` ended, once it has.
    pub fn setup_done_at(&self, task: usize) -> (at: Option<u64>)
        ensures
            at == (if task < self@.setup_done_at.len() {
                self@.setup_done_at[task as int]
            } else {
                None
            }),
    {
        if task < self.setup_done_at.len() {
            self.setup_done_at[task]
        } else {
            None
        }
    }

    pub fn is_enabled(&self, task: usize, result: StepResult) -> (yes: bool)
        requires
            self@.wf(),
        ensures
            yes == self@.enabled(task as int, result),
    {
        if self.arbiter.is_stopped() || task >= self.drivers.len() {
            return false;
        }
        match self.drivers[task] {
            Driver::Rendezvous { .. } => self.barrier.is_released(),
            Driver::Admission => match result {
                StepResult::Failed => true,
                StepResult::Done => self.pool.available() > 0,
            },
            Driver::Finished(_) => false,
            _ => true,
        }
    }

    /// The operation that `task` was waiting for ended with `result` at
    /// time `now`. A step that is not enabled changes nothing.
    pub fn complete(&mut self, task: usize, result: StepResult, now: u64) -> (notice: Notice)
        requires
            old(self)@.wf(),
        ensures
            final(self)@ == old(self)@.complete(task as int, result, now),
            notice == old(self)@.notice(task as int, result, now),
            final(self)@.wf(),
    {
        if !self.is_enabled(task, result) {
            return Notice::Nothing;
        }
        proof {
            lemma_complete_keeps_wf(self@, task as int, result, now);
            lemma_tally_bounds(self@.drivers, Census::Arrived);
            lemma_tally_update(
                self@.drivers,
                task as int,
                self@.drivers[task as int].next(result),
                Census::HoldingPermit,
            );
        }
        let at: u64 = if now > self.clock {
            now
        } else {
            self.clock
        };
        let before = self.drivers[task];
        let (after, directive) = before.advance(result);
        let mut notice = Notice::Nothing;
        self.clock = at;
        self.drivers.set(task, after);
        match before {
            Driver::Constructing => {
                self.setup_done_at.set(task, Some(at));
                let releases = self.barrier.arrive();
                if releases {
                    notice = self.arbiter.on_event(Event::BarrierReleased { now: at });
                }
            },
            Driver::Admission => {
                if after.has_permit() {
                    self.pool.try_acquire();
                }
            },
            _ => {},
        }
        if directive.release_permit {
            self.pool.release();
        }
        match after {
            Driver::Finished(outcome) => {
                notice = self.arbiter.on_event(Event::Completed(outcome));
            },
            _ => {},
        }
        if self.arbiter.pending() == 0 {
            self.arbiter.on_event(Event::StreamExhausted);
        }
        notice
    }

    /// The operator asked the run to stop.
    pub fn interrupt(&mut self) -> (notice: Notice)
        requires
            old(self)@.wf(),
        ensures
            final(self)@ == old(self)@.signal(Event::Interrupt),
            notice == old(self)@.arbiter.notice(Event::Interrupt),
            final(self)@.wf(),
    {
        proof {
            lemma_signal_keeps_wf(self@, Event::Interrupt);
        }
        self.arbiter.on_event(Event::Interrupt)
    }

    /// The watchdog's time is up. This counts only while the watchdog is
    /// armed.
    pub fn watchdog_fired(&mut self) -> (notice: Notice)
        requires
            old(self)@.wf(),
        ensures
            final(self)@ == old(self)@.signal(Event::WatchdogFired),
            notice == old(self)@.arbiter.notice(Event::WatchdogFired),
            final(self)@.wf(),
    {
        proof {
            lemma_signal_keeps_wf(self@, Event::WatchdogFired);
        }
        self.arbiter.on_event(Event::WatchdogFired)
    }

    /// The summary of the run as it stands at time `now`.
    pub fn report(&self, now: u64) -> (report: RunReport)
        requires
            self@.wf(),
        ensures
            report == self@.report(now),
    {
        let at: u64 = if now > self.clock {
            now
        } else {
            self.clock
        };
        self.arbiter.report(at)
    }
}

} // verus!

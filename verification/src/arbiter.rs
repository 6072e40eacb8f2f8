use vstd::prelude::*;
use crate::config::RunConfig;
use crate::driver::{Outcome, Stage};
use crate::report::RunReport;

verus! {

/// The two phases of a run. Only the second one is measured.
#[derive(Clone, Copy, Debug, PartialEq, Eq, Structural)]
pub enum Phase {
    Setup,
    Measuring,
}

/// Why the control loop stopped.
#[derive(Clone, Copy, Debug, PartialEq, Eq, Structural)]
pub enum Stop {
    Timeout,
    Interrupted,
    AllReported,
}

/// What the control loop can see happen. It takes one event at a time.
#[derive(Clone, Copy, Debug, PartialEq, Eq, Structural)]
pub enum Event {
    /// The setup barrier released, at time `now` in nanoseconds.
    BarrierReleased { now: u64 },
    WatchdogFired,
    Interrupt,
    /// One task's lifecycle ended.
    Completed(Outcome),
    /// The stream of outcomes has come to its end.
    StreamExhausted,
}

/// What the caller should show for an event.
#[derive(Clone, Copy, Debug, PartialEq, Eq, Structural)]
pub enum Notice {
    Nothing,
    /// Setup is over; the tasks are running.
    Measuring,
    /// A task succeeded, as the `ordinal`-th to report.
    TaskSucceeded { ordinal: usize },
    /// A task failed at `stage`, as the `ordinal`-th to report.
    TaskFailed { ordinal: usize, stage: Stage },
    TimedOut,
    Cancelled,
}

impl Notice {
    /// Whether the notice is put before the operator. A failure and the end
    /// of a phase always are; a single success only where the operator
    /// asked for every task to be echoed.
    pub open spec fn visible(self, verbose: bool) -> bool {
        match self {
            Notice::Nothing => false,
            Notice::TaskSucceeded { .. } => verbose,
            _ => true,
        }
    }

    pub fn shown(&self, verbose: bool) -> (yes: bool)
        ensures
            yes == self.visible(verbose),
    {
        match self {
            Notice::Nothing => false,
            Notice::TaskSucceeded { .. } => verbose,
            _ => true,
        }
    }
}

/// The arbiter as a mathematical value.
pub struct ArbiterState {
    pub total: nat,
    /// Budget of the measurement phase; zero for none.
    pub timeout: nat,
    pub success: nat,
    pub failed: nat,
    /// When the measurement began, once it has.
    pub start: Option<nat>,
    pub stop: Option<Stop>,
}

impl ArbiterState {
    pub open spec fn initial(total: nat, timeout: nat) -> ArbiterState {
        ArbiterState { total, timeout, success: 0, failed: 0, start: None, stop: None }
    }

    /// No more outcomes are counted than there are tasks, and every number
    /// is one that the machine can hold.
    pub open spec fn wf(self) -> bool {
        &&& self.success + self.failed <= self.total <= usize::MAX
        &&& self.timeout <= u64::MAX
        &&& self.start matches Some(s) ==> s <= u64::MAX
    }

    /// Number of tasks whose outcome has been seen.
    pub open spec fn reported(self) -> nat {
        self.success + self.failed
    }

    /// Number of tasks whose outcome has not been seen yet.
    pub open spec fn pending(self) -> nat {
        (self.total - self.success - self.failed) as nat
    }

    pub open spec fn phase(self) -> Phase {
        if self.start is Some {
            Phase::Measuring
        } else {
            Phase::Setup
        }
    }

    pub open spec fn stopped(self) -> bool {
        self.stop is Some
    }

    /// The watchdog runs only while the measurement does, and only where a
    /// budget was set.
    pub open spec fn armed(self) -> bool {
        !self.stopped() && self.phase() == Phase::Measuring && self.timeout != 0
    }

    /// The instant at which the watchdog is due, while it is armed.
    pub open spec fn deadline(self) -> Option<nat> {
        if self.armed() {
            Some(self.start->0 + self.timeout)
        } else {
            None
        }
    }

    /// The events that change anything. After the loop has stopped none
    /// does; before, the barrier releases once, the watchdog fires only
    /// while armed, and an outcome counts only while one is pending.
    pub open spec fn accepts(self, event: Event) -> bool {
        !self.stopped() && match event {
            Event::BarrierReleased { .. } => self.start is None,
            Event::WatchdogFired => self.armed(),
            Event::Interrupt => true,
            Event::Completed(_) => self.pending() > 0,
            Event::StreamExhausted => true,
        }
    }

    /// The state after `event`.
    pub open spec fn step(self, event: Event) -> ArbiterState {
        if !self.accepts(event) {
            self
        } else {
            match event {
                Event::BarrierReleased { now } => ArbiterState { start: Some(now as nat), ..self },
                Event::WatchdogFired => ArbiterState { stop: Some(Stop::Timeout), ..self },
                Event::Interrupt => ArbiterState { stop: Some(Stop::Interrupted), ..self },
                Event::Completed(Outcome::Succeeded) => ArbiterState {
                    success: self.success + 1,
                    ..self
                },
                Event::Completed(Outcome::Failed(_)) => ArbiterState {
                    failed: self.failed + 1,
                    ..self
                },
                Event::StreamExhausted => ArbiterState { stop: Some(Stop::AllReported), ..self },
            }
        }
    }

    /// What is shown for `event`. A failure is always shown, with its place
    /// among the outcomes seen so far.
    pub open spec fn notice(self, event: Event) -> Notice {
        if !self.accepts(event) {
            Notice::Nothing
        } else {
            match event {
                Event::BarrierReleased { .. } => Notice::Measuring,
                Event::WatchdogFired => Notice::TimedOut,
                Event::Interrupt => Notice::Cancelled,
                Event::Completed(Outcome::Succeeded) => Notice::TaskSucceeded {
                    ordinal: (self.reported() + 1) as usize,
                },
                Event::Completed(Outcome::Failed(stage)) => Notice::TaskFailed {
                    ordinal: (self.reported() + 1) as usize,
                    stage,
                },
                Event::StreamExhausted => Notice::Nothing,
            }
        }
    }

    /// Time from the start of the measurement to `now`, where it began.
    pub open spec fn elapsed(self, now: nat) -> Option<nat> {
        match self.start {
            Some(start) => Some(if now >= start { (now - start) as nat } else { 0 }),
            None => None,
        }
    }

    /// The state after all of `events`, taken in order.
    pub open spec fn after(self, events: Seq<Event>) -> ArbiterState
        decreases events.len(),
    {
        if events.len() == 0 {
            self
        } else {
            self.after(events.drop_last()).step(events.last())
        }
    }

    /// The summary at time `now`: a success exactly when every task
    /// succeeded, and otherwise the three counts.
    pub open spec fn report(self, now: nat) -> RunReport {
        if self.success == self.total {
            RunReport::Success {
                total: self.total as usize,
                elapsed_nanos: match self.elapsed(now) {
                    Some(e) => Some(e as u64),
                    None => None,
                },
            }
        } else {
            RunReport::Failure {
                success: self.success as usize,
                failed: self.failed as usize,
                incomplete: self.pending() as usize,
            }
        }
    }
}

/// The control loop's state: the running tally, the start of the
/// measurement and the reason for stopping. Only the loop writes to it.
#[derive(Clone, Copy, Debug, PartialEq, Eq)]
pub struct Arbiter {
    total: usize,
    timeout_nanos: u64,
    success: usize,
    failed: usize,
    start: Option<u64>,
    stop: Option<Stop>,
}

impl View for Arbiter {
    type V = ArbiterState;

    closed spec fn view(&self) -> ArbiterState {
        ArbiterState {
            total: self.total as nat,
            timeout: self.timeout_nanos as nat,
            success: self.success as nat,
            failed: self.failed as nat,
            start: match self.start {
                Some(s) => Some(s as nat),
                None => None,
            },
            stop: self.stop,
        }
    }
}

impl Arbiter {
    pub fn new(config: &RunConfig) -> (arbiter: Arbiter)
        ensures
            arbiter@ == ArbiterState::initial(config.count as nat, config.timeout_nanos as nat),
            arbiter@.wf(),
    {
        Arbiter {
            total: config.count,
            timeout_nanos: config.timeout_nanos,
            success: 0,
            failed: 0,
            start: None,
            stop: None,
        }
    }

    pub fn total(&self) -> (n: usize)
        ensures
            n == self@.total,
    {
        self.total
    }

    pub fn success(&self) -> (n: usize)
        ensures
            n == self@.success,
    {
        self.success
    }

    pub fn failed(&self) -> (n: usize)
        ensures
            n == self@.failed,
    {
        self.failed
    }

    pub fn pending(&self) -> (n: usize)
        requires
            self@.wf(),
        ensures
            n == self@.pending(),
    {
        self.total - self.success - self.failed
    }

    pub fn phase(&self) -> (phase: Phase)
        ensures
            phase == self@.phase(),
    {
        match self.start {
            Some(_) => Phase::Measuring,
            None => Phase::Setup,
        }
    }

    pub fn started_at(&self) -> (start: Option<u64>)
        ensures
            start is Some == self@.start is Some,
            start matches Some(s) ==> self@.start == Some(s as nat),
    {
        self.start
    }

    pub fn stop(&self) -> (stop: Option<Stop>)
        ensures
            stop == self@.stop,
    {
        self.stop
    }

    pub fn is_stopped(&self) -> (yes: bool)
        ensures
            yes == self@.stopped(),
    {
        self.stop.is_some()
    }

    pub fn watchdog_armed(&self) -> (yes: bool)
        ensures
            yes == self@.armed(),
    {
        self.stop.is_none() && self.start.is_some() && self.timeout_nanos != 0
    }

    /// The instant at which the watchdog is due, while it is armed; the
    /// largest instant there is where the sum goes beyond it.
    pub fn watchdog_deadline(&self) -> (due: Option<u64>)
        ensures
            due is Some == self@.deadline() is Some,
            due matches Some(d) ==> d == (if self@.deadline()->0 <= u64::MAX {
                self@.deadline()->0
            } else {
                u64::MAX as nat
            }),
    {
        if self.watchdog_armed() {
            match self.start {
                Some(start) => Some(start.saturating_add(self.timeout_nanos)),
                None => None,
            }
        } else {
            None
        }
    }

    /// Takes one event, updates the tally and says what to show.
    pub fn on_event(&mut self, event: Event) -> (notice: Notice)
        requires
            old(self)@.wf(),
        ensures
            final(self)@ == old(self)@.step(event),
            notice == old(self)@.notice(event),
            final(self)@.wf(),
    {
        if self.stop.is_some() {
            return Notice::Nothing;
        }
        match event {
            Event::BarrierReleased { now } => {
                if self.start.is_none() {
                    self.start = Some(now);
                    Notice::Measuring
                } else {
                    Notice::Nothing
                }
            },
            Event::WatchdogFired => {
                if self.watchdog_armed() {
                    self.stop = Some(Stop::Timeout);
                    Notice::TimedOut
                } else {
                    Notice::Nothing
                }
            },
            Event::Interrupt => {
                self.stop = Some(Stop::Interrupted);
                Notice::Cancelled
            },
            Event::Completed(outcome) => {
                if self.pending() == 0 {
                    Notice::Nothing
                } else {
                    let ordinal: usize = self.success + self.failed + 1;
                    match outcome {
                        Outcome::Succeeded => {
                            self.success = self.success + 1;
                            Notice::TaskSucceeded { ordinal }
                        },
                        Outcome::Failed(stage) => {
                            self.failed = self.failed + 1;
                            Notice::TaskFailed { ordinal, stage }
                        },
                    }
                }
            },
            Event::StreamExhausted => {
                self.stop = Some(Stop::AllReported);
                Notice::Nothing
            },
        }
    }

    /// The summary of the run as it stands at time `now`.
    pub fn report(&self, now: u64) -> (report: RunReport)
        requires
            self@.wf(),
        ensures
            report == self@.report(now as nat),
    {
        if self.success == self.total {
            let elapsed_nanos: Option<u64> = match self.start {
                Some(start) => Some(if now >= start { now - start } else { 0 }),
                None => None,
            };
            RunReport::Success { total: self.total, elapsed_nanos }
        } else {
            RunReport::Failure {
                success: self.success,
                failed: self.failed,
                incomplete: self.total - self.success - self.failed,
            }
        }
    }
}

/// One event changes little: the configuration never, the tally by one
/// outcome at most and only upwards, and the start of the measurement and
/// the reason for stopping are each written once.
pub proof fn lemma_step_keeps_accounts(state: ArbiterState, event: Event)
    requires
        state.wf(),
    ensures
        state.step(event).wf(),
        state.step(event).total == state.total,
        state.step(event).timeout == state.timeout,
        state.success <= state.step(event).success,
        state.failed <= state.step(event).failed,
        state.step(event).reported() <= state.reported() + 1,
        state.start is Some ==> state.step(event).start == state.start,
        state.stop is Some ==> state.step(event).stop == state.stop,
{
}

/// Once the loop has stopped, no event changes anything or shows anything.
pub proof fn lemma_stopped_is_final(state: ArbiterState, events: Seq<Event>)
    requires
        state.stopped(),
    ensures
        state.after(events) == state,
        events.len() > 0 ==> state.after(events.drop_last()).notice(events.last())
            == Notice::Nothing,
    decreases events.len(),
{
    if events.len() > 0 {
        lemma_stopped_is_final(state, events.drop_last());
    }
}

/// Whatever events come, in whatever order, the tally stays within the
/// number of tasks.
pub proof fn lemma_every_run_keeps_accounts(state: ArbiterState, events: Seq<Event>)
    requires
        state.wf(),
    ensures
        state.after(events).wf(),
        state.after(events).total == state.total,
        state.after(events).timeout == state.timeout,
    decreases events.len(),
{
    if events.len() > 0 {
        lemma_every_run_keeps_accounts(state, events.drop_last());
        lemma_step_keeps_accounts(state.after(events.drop_last()), events.last());
    }
}

/// Every task is accounted for in the summary: the successes, the failures
/// and the tasks that never reported add up to the number of tasks, and the
/// run counts as a success only where every task succeeded.
pub proof fn lemma_report_accounts_for_every_task(state: ArbiterState, now: nat)
    requires
        state.wf(),
    ensures
        state.report(now).counts().success + state.report(now).counts().failed + state.report(
            now,
        ).counts().incomplete == state.total,
        state.report(now).counts().success == state.success,
        state.report(now).succeeded() <==> state.success == state.total,
        state.report(now).succeeded() ==> state.pending() == 0 && state.failed == 0,
{
}

/// The same at the end of any run: from the first state on, through any
/// events, the three counts of the summary add up to the number of tasks.
pub proof fn lemma_run_end_accounts_for_every_task(
    total: nat,
    timeout: nat,
    events: Seq<Event>,
    now: nat,
)
    requires
        total <= usize::MAX,
        timeout <= u64::MAX,
    ensures
        ({
            let tally = ArbiterState::initial(total, timeout).after(events).report(now).counts();
            tally.success + tally.failed + tally.incomplete == total
        }),
{
    let first = ArbiterState::initial(total, timeout);
    lemma_every_run_keeps_accounts(first, events);
    lemma_report_accounts_for_every_task(first.after(events), now);
}

/// The watchdog cannot fire during setup, nor where no budget was set: such
/// an event changes nothing.
pub proof fn lemma_watchdog_waits_for_setup(state: ArbiterState)
    requires
        state.phase() == Phase::Setup || state.timeout == 0,
    ensures
        !state.armed(),
        state.deadline() is None,
        state.step(Event::WatchdogFired) == state,
        state.notice(Event::WatchdogFired) == Notice::Nothing,
{
}

/// Where the watchdog fires while outcomes are pending, the run ends as a
/// failure with as many tasks incomplete as were pending, at least one, and
/// nothing that comes later changes that.
pub proof fn lemma_timeout_leaves_incomplete(state: ArbiterState, later: Seq<Event>, now: nat)
    requires
        state.wf(),
        state.armed(),
        state.pending() > 0,
    ensures
        ({
            let end = state.step(Event::WatchdogFired).after(later);
            &&& end.stop == Some(Stop::Timeout)
            &&& end.report(now) == (RunReport::Failure {
                success: state.success as usize,
                failed: state.failed as usize,
                incomplete: state.pending() as usize,
            })
            &&& end.report(now).counts().incomplete > 0
        }),
{
    lemma_stopped_is_final(state.step(Event::WatchdogFired), later);
}

/// An interrupt stops the loop in any phase, with the tally as it stood.
pub proof fn lemma_interrupt_stops(state: ArbiterState, later: Seq<Event>)
    requires
        !state.stopped(),
    ensures
        state.step(Event::Interrupt).after(later) == (ArbiterState {
            stop: Some(Stop::Interrupted),
            ..state
        }),
{
    lemma_stopped_is_final(state.step(Event::Interrupt), later);
}

} // verus!

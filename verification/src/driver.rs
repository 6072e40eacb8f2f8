use vstd::prelude::*;

verus! {

/// A step of a task's lifecycle that can fail.
#[derive(Clone, Copy, Debug, PartialEq, Eq, Structural)]
pub enum Stage {
    /// Binding a task to its image and arguments.
    Construct,
    /// Waiting at the setup barrier.
    Rendezvous,
    /// Waiting for an admission permit.
    Admission,
    /// Creating the task's bundle.
    Create,
    Start,
    Wait,
    Delete,
}

/// How one task's lifecycle ended.
#[derive(Clone, Copy, Debug, PartialEq, Eq, Structural)]
pub enum Outcome {
    Succeeded,
    /// The lifecycle was abandoned at the stage that failed.
    Failed(Stage),
}

/// How far the backend's task has come.
#[derive(Clone, Copy, Debug, PartialEq, Eq, Structural)]
pub enum TaskState {
    Unstarted,
    Created,
    Started,
    Waited,
    Deleted,
}

/// What the caller has to do next for a task.
#[derive(Clone, Copy, Debug, PartialEq, Eq, Structural)]
pub enum Operation {
    Construct,
    JoinBarrier,
    AcquirePermit,
    Create,
    Start,
    Wait,
    Delete,
    /// Nothing more to do: hand the outcome to the arbiter.
    Report(Outcome),
}

/// The driver's answer to a step result: whether the task's permit goes back
/// to the pool now, and what to do after that.
#[derive(Clone, Copy, Debug, PartialEq, Eq, Structural)]
pub struct Directive {
    pub release_permit: bool,
    pub then: Operation,
}

/// How the operation that was last asked for ended.
#[derive(Clone, Copy, Debug, PartialEq, Eq, Structural)]
pub enum StepResult {
    Done,
    Failed,
}

/// The lifecycle of one task. Each state but the last names the operation
/// that is under way.
#[derive(Clone, Copy, Debug, PartialEq, Eq, Structural)]
pub enum Driver {
    Constructing,
    /// At the setup barrier. A driver whose task could not be constructed
    /// arrives too, so that its peers are not held up, and fails afterwards.
    Rendezvous { constructed: bool },
    Admission,
    Creating,
    Starting,
    Waiting,
    Deleting,
    Finished(Outcome),
}

impl TaskState {
    /// Position in the order of the task's states.
    pub open spec fn rank(self) -> nat {
        match self {
            TaskState::Unstarted => 0,
            TaskState::Created => 1,
            TaskState::Started => 2,
            TaskState::Waited => 3,
            TaskState::Deleted => 4,
        }
    }
}

impl Outcome {
    pub open spec fn succeeded(self) -> bool {
        self == Outcome::Succeeded
    }

    pub fn is_success(&self) -> (yes: bool)
        ensures
            yes == self.succeeded(),
    {
        match self {
            Outcome::Succeeded => true,
            Outcome::Failed(_) => false,
        }
    }
}

impl Driver {
    pub open spec fn finished(self) -> bool {
        self is Finished
    }

    /// A permit is held from admission until the start call has returned.
    pub open spec fn holds_permit(self) -> bool {
        self is Creating || self is Starting
    }

    /// Whether the construct step is over, for better or worse.
    pub open spec fn past_construct(self) -> bool {
        !(self is Constructing)
    }

    /// Position in the lifecycle. Every step moves a driver to a higher one.
    pub open spec fn rank(self) -> nat {
        match self {
            Driver::Constructing => 0,
            Driver::Rendezvous { .. } => 1,
            Driver::Admission => 2,
            Driver::Creating => 3,
            Driver::Starting => 4,
            Driver::Waiting => 5,
            Driver::Deleting => 6,
            Driver::Finished(_) => 7,
        }
    }

    /// The operation that is under way in this state.
    pub open spec fn awaiting(self) -> Operation {
        match self {
            Driver::Constructing => Operation::Construct,
            Driver::Rendezvous { .. } => Operation::JoinBarrier,
            Driver::Admission => Operation::AcquirePermit,
            Driver::Creating => Operation::Create,
            Driver::Starting => Operation::Start,
            Driver::Waiting => Operation::Wait,
            Driver::Deleting => Operation::Delete,
            Driver::Finished(outcome) => Operation::Report(outcome),
        }
    }

    /// The state of the backend's task that goes with this state.
    pub open spec fn task(self) -> TaskState {
        match self {
            Driver::Starting | Driver::Finished(Outcome::Failed(Stage::Start)) => TaskState::Created,
            Driver::Waiting | Driver::Finished(Outcome::Failed(Stage::Wait)) => TaskState::Started,
            Driver::Deleting | Driver::Finished(Outcome::Failed(Stage::Delete)) => TaskState::Waited,
            Driver::Finished(Outcome::Succeeded) => TaskState::Deleted,
            _ => TaskState::Unstarted,
        }
    }

    /// The state that follows when the operation under way ends with
    /// `result`. A failure ends the lifecycle at once, but for a failed
    /// construct step, which still arrives at the barrier first.
    pub open spec fn next(self, result: StepResult) -> Driver {
        match (self, result) {
            (Driver::Constructing, StepResult::Done) => Driver::Rendezvous { constructed: true },
            (Driver::Constructing, StepResult::Failed) => Driver::Rendezvous { constructed: false },
            (Driver::Rendezvous { constructed: false }, _) => Driver::Finished(
                Outcome::Failed(Stage::Construct),
            ),
            (Driver::Rendezvous { constructed: true }, StepResult::Done) => Driver::Admission,
            (Driver::Rendezvous { constructed: true }, StepResult::Failed) => Driver::Finished(
                Outcome::Failed(Stage::Rendezvous),
            ),
            (Driver::Admission, StepResult::Done) => Driver::Creating,
            (Driver::Admission, StepResult::Failed) => Driver::Finished(
                Outcome::Failed(Stage::Admission),
            ),
            (Driver::Creating, StepResult::Done) => Driver::Starting,
            (Driver::Creating, StepResult::Failed) => Driver::Finished(
                Outcome::Failed(Stage::Create),
            ),
            (Driver::Starting, StepResult::Done) => Driver::Waiting,
            (Driver::Starting, StepResult::Failed) => Driver::Finished(
                Outcome::Failed(Stage::Start),
            ),
            (Driver::Waiting, StepResult::Done) => Driver::Deleting,
            (Driver::Waiting, StepResult::Failed) => Driver::Finished(Outcome::Failed(Stage::Wait)),
            (Driver::Deleting, StepResult::Done) => Driver::Finished(Outcome::Succeeded),
            (Driver::Deleting, StepResult::Failed) => Driver::Finished(
                Outcome::Failed(Stage::Delete),
            ),
            (Driver::Finished(outcome), _) => Driver::Finished(outcome),
        }
    }

    /// What the caller is told when the operation under way ends with
    /// `result`: to give the permit back if this step ends the time it is
    /// held for, and then to do what the next state is waiting for.
    pub open spec fn directive(self, result: StepResult) -> Directive {
        Directive {
            release_permit: self.holds_permit() && !self.next(result).holds_permit(),
            then: self.next(result).awaiting(),
        }
    }

    /// A fresh driver, and the first thing to do for it.
    pub fn begin() -> (first: (Driver, Directive))
        ensures
            first.0 == Driver::Constructing,
            first.1 == (Directive { release_permit: false, then: Operation::Construct }),
    {
        (Driver::Constructing, Directive { release_permit: false, then: Operation::Construct })
    }

    pub fn is_finished(&self) -> (yes: bool)
        ensures
            yes == self.finished(),
    {
        match self {
            Driver::Finished(_) => true,
            _ => false,
        }
    }

    pub fn has_permit(&self) -> (yes: bool)
        ensures
            yes == self.holds_permit(),
    {
        match self {
            Driver::Creating | Driver::Starting => true,
            _ => false,
        }
    }

    /// The outcome, once the lifecycle is over.
    pub fn outcome(&self) -> (outcome: Option<Outcome>)
        ensures
            outcome == (match *self {
                Driver::Finished(o) => Some(o),
                _ => None,
            }),
    {
        match self {
            Driver::Finished(o) => Some(*o),
            _ => None,
        }
    }

    /// The operation that is under way.
    pub fn operation(&self) -> (operation: Operation)
        ensures
            operation == self.awaiting(),
    {
        match self {
            Driver::Constructing => Operation::Construct,
            Driver::Rendezvous { .. } => Operation::JoinBarrier,
            Driver::Admission => Operation::AcquirePermit,
            Driver::Creating => Operation::Create,
            Driver::Starting => Operation::Start,
            Driver::Waiting => Operation::Wait,
            Driver::Deleting => Operation::Delete,
            Driver::Finished(outcome) => Operation::Report(*outcome),
        }
    }

    pub fn task_state(&self) -> (state: TaskState)
        ensures
            state == self.task(),
    {
        match self {
            Driver::Starting | Driver::Finished(Outcome::Failed(Stage::Start)) => TaskState::Created,
            Driver::Waiting | Driver::Finished(Outcome::Failed(Stage::Wait)) => TaskState::Started,
            Driver::Deleting | Driver::Finished(Outcome::Failed(Stage::Delete)) => TaskState::Waited,
            Driver::Finished(Outcome::Succeeded) => TaskState::Deleted,
            _ => TaskState::Unstarted,
        }
    }

    /// Takes the result of the operation under way and says what follows.
    /// A finished driver stays as it is and asks again for its report.
    pub fn advance(self, result: StepResult) -> (step: (Driver, Directive))
        ensures
            step.0 == self.next(result),
            step.1 == self.directive(result),
    {
        let failed = match result {
            StepResult::Done => false,
            StepResult::Failed => true,
        };
        match self {
            Driver::Constructing => (
                Driver::Rendezvous { constructed: !failed },
                Directive { release_permit: false, then: Operation::JoinBarrier },
            ),
            Driver::Rendezvous { constructed } => {
                if !constructed {
                    Self::finish(false, Outcome::Failed(Stage::Construct))
                } else if failed {
                    Self::finish(false, Outcome::Failed(Stage::Rendezvous))
                } else {
                    (
                        Driver::Admission,
                        Directive { release_permit: false, then: Operation::AcquirePermit },
                    )
                }
            },
            Driver::Admission => {
                if failed {
                    Self::finish(false, Outcome::Failed(Stage::Admission))
                } else {
                    (Driver::Creating, Directive { release_permit: false, then: Operation::Create })
                }
            },
            Driver::Creating => {
                if failed {
                    Self::finish(true, Outcome::Failed(Stage::Create))
                } else {
                    (Driver::Starting, Directive { release_permit: false, then: Operation::Start })
                }
            },
            Driver::Starting => {
                if failed {
                    Self::finish(true, Outcome::Failed(Stage::Start))
                } else {
                    (Driver::Waiting, Directive { release_permit: true, then: Operation::Wait })
                }
            },
            Driver::Waiting => {
                if failed {
                    Self::finish(false, Outcome::Failed(Stage::Wait))
                } else {
                    (Driver::Deleting, Directive { release_permit: false, then: Operation::Delete })
                }
            },
            Driver::Deleting => {
                if failed {
                    Self::finish(false, Outcome::Failed(Stage::Delete))
                } else {
                    Self::finish(false, Outcome::Succeeded)
                }
            },
            Driver::Finished(outcome) => Self::finish(false, outcome),
        }
    }

    fn finish(release_permit: bool, outcome: Outcome) -> (step: (Driver, Directive))
        ensures
            step.0 == Driver::Finished(outcome),
            step.1 == (Directive { release_permit, then: Operation::Report(outcome) }),
    {
        (Driver::Finished(outcome), Directive { release_permit, then: Operation::Report(outcome) })
    }
}

/// A lifecycle only moves forward: every step of a driver that is not
/// finished takes it to a later state, so a lifecycle is over after at most
/// seven steps.
pub proof fn lemma_step_moves_forward(driver: Driver, result: StepResult)
    requires
        !driver.finished(),
    ensures
        driver.next(result).rank() > driver.rank(),
        driver.next(result).rank() <= 7,
        driver.next(result).rank() == 7 <==> driver.next(result).finished(),
{
}

/// The backend's task only moves forward too, by one state at a time, and it
/// moves exactly when a create, start, wait or delete call succeeded.
pub proof fn lemma_task_moves_forward(driver: Driver, result: StepResult)
    ensures
        driver.task().rank() <= driver.next(result).task().rank() <= driver.task().rank() + 1,
        driver.next(result).task() != driver.task() <==> result == StepResult::Done && (
            driver is Creating || driver is Starting || driver is Waiting || driver is Deleting),
{
}

/// A permit is given back exactly once: the step that ends the start phase
/// releases it, whether the create or start call succeeded or failed, and no
/// other step does. From then on the driver never holds a permit again.
pub proof fn lemma_permit_released_once(driver: Driver, result: StepResult)
    ensures
        driver.directive(result).release_permit <==> (driver is Starting || (driver is Creating
            && result == StepResult::Failed)),
        driver.directive(result).release_permit ==> driver.holds_permit() && driver.next(
            result,
        ).rank() > 4,
        driver.holds_permit() && !driver.directive(result).release_permit ==> driver.next(
            result,
        ).holds_permit(),
        !driver.holds_permit() && driver.next(result).holds_permit() ==> driver is Admission
            && result == StepResult::Done,
        driver.rank() > 4 ==> !driver.holds_permit() && !driver.next(result).holds_permit()
            && !driver.directive(result).release_permit,
{
}

/// A lifecycle succeeds only if every one of its operations did: any failed
/// step ends it in failure, naming the stage that was under way, and the
/// only failure that is not reported at once is that of the construct step.
pub proof fn lemma_failure_ends_lifecycle(driver: Driver)
    requires
        !driver.finished(),
    ensures
        driver.next(StepResult::Failed).finished() || driver is Constructing,
        !(driver.next(StepResult::Failed) matches Driver::Finished(Outcome::Succeeded)),
        driver.next(StepResult::Done) matches Driver::Finished(Outcome::Succeeded)
            ==> driver is Deleting,
{
}

} // verus!

use stress_test::barrier::SetupBarrier;
use stress_test::config::RunConfig;
use stress_test::driver::{Directive, Driver, Operation, Outcome, Stage, StepResult, TaskState};
use stress_test::pool::PermitPool;

#[test]
fn capacity_is_the_parallelism() {
    assert_eq!(RunConfig::new(10, 1, 0).permit_capacity(), 1);
    assert_eq!(RunConfig::new(10, 4, 0).permit_capacity(), 4);
    assert_eq!(RunConfig::new(3, 8, 0).permit_capacity(), 8);
}

#[test]
fn capacity_is_the_count_when_unbounded() {
    assert_eq!(RunConfig::new(10, 0, 0).permit_capacity(), 10);
    assert_eq!(RunConfig::new(0, 0, 0).permit_capacity(), 0);
}

#[test]
fn barrier_has_one_party_more_than_tasks() {
    assert_eq!(RunConfig::new(10, 1, 0).barrier_parties(), Some(11));
    assert_eq!(RunConfig::new(0, 1, 0).barrier_parties(), Some(1));
    assert_eq!(RunConfig::new(usize::MAX, 1, 0).barrier_parties(), None);
}

#[test]
fn watchdog_is_off_without_a_budget() {
    assert!(!RunConfig::new(1, 1, 0).watchdog_enabled());
    assert!(RunConfig::new(1, 1, 2_000_000_000).watchdog_enabled());
}

#[test]
fn pool_grants_until_empty() {
    let mut pool = PermitPool::new(2);
    assert_eq!(pool.capacity(), 2);
    assert_eq!(pool.available(), 2);
    assert!(pool.try_acquire());
    assert!(pool.try_acquire());
    assert_eq!(pool.available(), 0);
    assert_eq!(pool.in_use(), 2);
    assert!(!pool.try_acquire());
    assert_eq!(pool.available(), 0);
    assert_eq!(pool.in_use(), 2);
}

#[test]
fn pool_release_restores_what_acquire_took() {
    let mut pool = PermitPool::new(3);
    assert!(pool.try_acquire());
    let before = pool.available();
    assert!(pool.try_acquire());
    assert_eq!(pool.available(), before - 1);
    pool.release();
    assert_eq!(pool.available(), before);
    pool.release();
    assert_eq!(pool, PermitPool::new(3));
}

#[test]
fn empty_pool_grants_nothing() {
    let mut pool = PermitPool::new(0);
    assert!(!pool.try_acquire());
    assert_eq!(pool.in_use(), 0);
}

#[test]
fn barrier_releases_with_the_last_arrival_only() {
    let mut barrier = SetupBarrier::new(3);
    assert_eq!(barrier.parties(), 3);
    assert!(!barrier.is_released());
    assert!(!barrier.arrive());
    assert!(!barrier.arrive());
    assert_eq!(barrier.arrived(), 2);
    assert!(!barrier.is_released());
    assert!(barrier.arrive());
    assert!(barrier.is_released());
    assert_eq!(barrier.arrived(), 3);
}

#[test]
fn barrier_of_one_releases_at_once() {
    let mut barrier = SetupBarrier::new(1);
    assert!(barrier.arrive());
    assert!(barrier.is_released());
}

fn keep(then: Operation) -> Directive {
    Directive { release_permit: false, then }
}

fn give_back(then: Operation) -> Directive {
    Directive { release_permit: true, then }
}

#[test]
fn lifecycle_runs_in_order() {
    let (driver, first) = Driver::begin();
    assert_eq!(driver, Driver::Constructing);
    assert_eq!(first, keep(Operation::Construct));
    let (driver, next) = driver.advance(StepResult::Done);
    assert_eq!(driver, Driver::Rendezvous { constructed: true });
    assert_eq!(next, keep(Operation::JoinBarrier));
    let (driver, next) = driver.advance(StepResult::Done);
    assert_eq!(driver, Driver::Admission);
    assert_eq!(next, keep(Operation::AcquirePermit));
    let (driver, next) = driver.advance(StepResult::Done);
    assert_eq!(driver, Driver::Creating);
    assert_eq!(next, keep(Operation::Create));
    let (driver, next) = driver.advance(StepResult::Done);
    assert_eq!(driver, Driver::Starting);
    assert_eq!(next, keep(Operation::Start));
    let (driver, next) = driver.advance(StepResult::Done);
    assert_eq!(driver, Driver::Waiting);
    assert_eq!(next, give_back(Operation::Wait));
    let (driver, next) = driver.advance(StepResult::Done);
    assert_eq!(driver, Driver::Deleting);
    assert_eq!(next, keep(Operation::Delete));
    let (driver, next) = driver.advance(StepResult::Done);
    assert_eq!(driver, Driver::Finished(Outcome::Succeeded));
    assert_eq!(next, keep(Operation::Report(Outcome::Succeeded)));
    assert!(driver.is_finished());
    assert_eq!(driver.outcome(), Some(Outcome::Succeeded));
}

#[test]
fn failed_construct_arrives_then_fails() {
    let (driver, next) = Driver::Constructing.advance(StepResult::Failed);
    assert_eq!(driver, Driver::Rendezvous { constructed: false });
    assert_eq!(next, keep(Operation::JoinBarrier));
    assert!(!driver.is_finished());
    let (driver, next) = driver.advance(StepResult::Done);
    assert_eq!(driver, Driver::Finished(Outcome::Failed(Stage::Construct)));
    assert_eq!(next, keep(Operation::Report(Outcome::Failed(Stage::Construct))));
}

#[test]
fn failed_rendezvous_is_a_failure() {
    let (driver, next) = Driver::Rendezvous { constructed: true }.advance(StepResult::Failed);
    assert_eq!(driver, Driver::Finished(Outcome::Failed(Stage::Rendezvous)));
    assert_eq!(next, keep(Operation::Report(Outcome::Failed(Stage::Rendezvous))));
}

#[test]
fn failed_admission_holds_no_permit() {
    let (driver, next) = Driver::Admission.advance(StepResult::Failed);
    assert_eq!(driver, Driver::Finished(Outcome::Failed(Stage::Admission)));
    assert_eq!(next, keep(Operation::Report(Outcome::Failed(Stage::Admission))));
    assert!(!driver.has_permit());
}

#[test]
fn failed_create_gives_the_permit_back() {
    assert!(Driver::Creating.has_permit());
    let (driver, next) = Driver::Creating.advance(StepResult::Failed);
    assert_eq!(driver, Driver::Finished(Outcome::Failed(Stage::Create)));
    assert_eq!(next, give_back(Operation::Report(Outcome::Failed(Stage::Create))));
    assert!(!driver.has_permit());
}

#[test]
fn failed_start_gives_the_permit_back() {
    assert!(Driver::Starting.has_permit());
    let (driver, next) = Driver::Starting.advance(StepResult::Failed);
    assert_eq!(driver, Driver::Finished(Outcome::Failed(Stage::Start)));
    assert_eq!(next, give_back(Operation::Report(Outcome::Failed(Stage::Start))));
    assert!(!driver.has_permit());
}

#[test]
fn failed_wait_and_delete_release_nothing() {
    let (driver, next) = Driver::Waiting.advance(StepResult::Failed);
    assert_eq!(driver, Driver::Finished(Outcome::Failed(Stage::Wait)));
    assert_eq!(next, keep(Operation::Report(Outcome::Failed(Stage::Wait))));
    let (driver, next) = Driver::Deleting.advance(StepResult::Failed);
    assert_eq!(driver, Driver::Finished(Outcome::Failed(Stage::Delete)));
    assert_eq!(next, keep(Operation::Report(Outcome::Failed(Stage::Delete))));
}

#[test]
fn finished_driver_stays_finished() {
    let done = Driver::Finished(Outcome::Failed(Stage::Wait));
    for result in [StepResult::Done, StepResult::Failed] {
        let (driver, next) = done.advance(result);
        assert_eq!(driver, done);
        assert_eq!(next, keep(Operation::Report(Outcome::Failed(Stage::Wait))));
    }
}

#[test]
fn permit_is_released_exactly_once_per_lifecycle() {
    for create in [StepResult::Done, StepResult::Failed] {
        for start in [StepResult::Done, StepResult::Failed] {
            let mut driver = Driver::Admission;
            let mut releases = 0;
            let mut steps = 0;
            while !driver.is_finished() {
                let result = match driver {
                    Driver::Creating => create,
                    Driver::Starting => start,
                    _ => StepResult::Done,
                };
                let held = driver.has_permit();
                let (next, directive) = driver.advance(result);
                if directive.release_permit {
                    assert!(held);
                    assert!(!next.has_permit());
                    releases += 1;
                }
                driver = next;
                steps += 1;
                assert!(steps <= 7);
            }
            assert_eq!(releases, 1);
        }
    }
}

#[test]
fn task_state_follows_the_backend_calls() {
    assert_eq!(Driver::Constructing.task_state(), TaskState::Unstarted);
    assert_eq!(Driver::Rendezvous { constructed: true }.task_state(), TaskState::Unstarted);
    assert_eq!(Driver::Admission.task_state(), TaskState::Unstarted);
    assert_eq!(Driver::Creating.task_state(), TaskState::Unstarted);
    assert_eq!(Driver::Starting.task_state(), TaskState::Created);
    assert_eq!(Driver::Waiting.task_state(), TaskState::Started);
    assert_eq!(Driver::Deleting.task_state(), TaskState::Waited);
    assert_eq!(Driver::Finished(Outcome::Succeeded).task_state(), TaskState::Deleted);
    assert_eq!(Driver::Finished(Outcome::Failed(Stage::Create)).task_state(), TaskState::Unstarted);
    assert_eq!(Driver::Finished(Outcome::Failed(Stage::Start)).task_state(), TaskState::Created);
    assert_eq!(Driver::Finished(Outcome::Failed(Stage::Wait)).task_state(), TaskState::Started);
    assert_eq!(Driver::Finished(Outcome::Failed(Stage::Delete)).task_state(), TaskState::Waited);
}

#[test]
fn operation_names_what_is_under_way() {
    assert_eq!(Driver::Constructing.operation(), Operation::Construct);
    assert_eq!(Driver::Rendezvous { constructed: false }.operation(), Operation::JoinBarrier);
    assert_eq!(Driver::Admission.operation(), Operation::AcquirePermit);
    assert_eq!(Driver::Creating.operation(), Operation::Create);
    assert_eq!(Driver::Starting.operation(), Operation::Start);
    assert_eq!(Driver::Waiting.operation(), Operation::Wait);
    assert_eq!(Driver::Deleting.operation(), Operation::Delete);
    assert_eq!(
        Driver::Finished(Outcome::Succeeded).operation(),
        Operation::Report(Outcome::Succeeded)
    );
    assert!(Outcome::Succeeded.is_success());
    assert!(!Outcome::Failed(Stage::Start).is_success());
}

use vstd::prelude::*;
use crate::driver::{Driver, Outcome};

verus! {

/// The questions that the harness counts its drivers by.
#[derive(Clone, Copy, Debug, PartialEq, Eq, Structural)]
pub enum Census {
    /// Drivers that hold an admission permit.
    HoldingPermit,
    /// Drivers whose construct step is over, and which have therefore
    /// arrived at the setup barrier.
    Arrived,
    /// Drivers whose lifecycle ended in success.
    Succeeded,
    /// Drivers whose lifecycle ended in failure.
    Failed,
}

/// Whether `driver` is one of those that `census` counts.
pub open spec fn counted(driver: Driver, census: Census) -> bool {
    match census {
        Census::HoldingPermit => driver.holds_permit(),
        Census::Arrived => driver.past_construct(),
        Census::Succeeded => driver == Driver::Finished(Outcome::Succeeded),
        Census::Failed => driver matches Driver::Finished(Outcome::Failed(_)),
    }
}

/// Number of drivers that `census` counts.
pub open spec fn tally(drivers: Seq<Driver>, census: Census) -> nat
    decreases drivers.len(),
{
    if drivers.len() == 0 {
        0
    } else {
        tally(drivers.drop_last(), census) + if counted(drivers.last(), census) {
            1nat
        } else {
            0nat
        }
    }
}

/// A count changes with one driver by what that driver adds or takes away.
pub proof fn lemma_tally_update(drivers: Seq<Driver>, at: int, driver: Driver, census: Census)
    requires
        0 <= at < drivers.len(),
    ensures
        tally(drivers.update(at, driver), census) + (if counted(drivers[at], census) {
            1nat
        } else {
            0nat
        }) == tally(drivers, census) + (if counted(driver, census) {
            1nat
        } else {
            0nat
        }),
    decreases drivers.len(),
{
    let updated = drivers.update(at, driver);
    if at == drivers.len() - 1 {
        assert(updated.drop_last() =~= drivers.drop_last());
    } else {
        assert(updated.drop_last() =~= drivers.drop_last().update(at, driver));
        lemma_tally_update(drivers.drop_last(), at, driver, census);
    }
}

/// A count is at most the number of drivers. It is that number exactly when
/// every driver is counted, and zero exactly when none is.
pub proof fn lemma_tally_bounds(drivers: Seq<Driver>, census: Census)
    ensures
        tally(drivers, census) <= drivers.len(),
        tally(drivers, census) == drivers.len() <==> (forall|i: int|
            0 <= i < drivers.len() ==> counted(#[trigger] drivers[i], census)),
        tally(drivers, census) == 0 <==> (forall|i: int|
            0 <= i < drivers.len() ==> !counted(#[trigger] drivers[i], census)),
    decreases drivers.len(),
{
    if drivers.len() > 0 {
        let front = drivers.drop_last();
        lemma_tally_bounds(front, census);
        assert(forall|i: int| 0 <= i < front.len() ==> front[i] == drivers[i]);
        if tally(drivers, census) == drivers.len() {
            assert(counted(drivers.last(), census));
            assert(tally(front, census) == front.len());
            assert forall|i: int| 0 <= i < drivers.len() implies counted(
                #[trigger] drivers[i],
                census,
            ) by {
                if i < front.len() {
                    assert(counted(front[i], census));
                }
            }
        }
        if forall|i: int| 0 <= i < drivers.len() ==> counted(#[trigger] drivers[i], census) {
            assert(counted(drivers[drivers.len() - 1], census));
            assert forall|i: int| 0 <= i < front.len() implies counted(
                #[trigger] front[i],
                census,
            ) by {
                assert(counted(drivers[i], census));
            }
        }
        if tally(drivers, census) == 0 {
            assert forall|i: int| 0 <= i < drivers.len() implies !counted(
                #[trigger] drivers[i],
                census,
            ) by {
                if i < front.len() {
                    assert(!counted(front[i], census));
                }
            }
        }
        if forall|i: int| 0 <= i < drivers.len() ==> !counted(#[trigger] drivers[i], census) {
            assert(!counted(drivers[drivers.len() - 1], census));
            assert forall|i: int| 0 <= i < front.len() implies !counted(
                #[trigger] front[i],
                census,
            ) by {
                assert(!counted(drivers[i], census));
            }
        }
    }
}

} // verus!

use stress_test::arbiter::{Arbiter, Event, Notice, Phase, Stop};
use stress_test::config::RunConfig;
use stress_test::driver::{Outcome, Stage};
use stress_test::report::{RunReport, Tally};

fn arbiter(count: usize, timeout_nanos: u64) -> Arbiter {
    Arbiter::new(&RunConfig::new(count, 1, timeout_nanos))
}

#[test]
fn arbiter_starts_in_setup_with_nothing_counted() {
    let a = arbiter(4, 7);
    assert_eq!(a.total(), 4);
    assert_eq!(a.success(), 0);
    assert_eq!(a.failed(), 0);
    assert_eq!(a.pending(), 4);
    assert_eq!(a.phase(), Phase::Setup);
    assert_eq!(a.started_at(), None);
    assert_eq!(a.stop(), None);
    assert!(!a.is_stopped());
    assert!(!a.watchdog_armed());
    assert_eq!(a.watchdog_deadline(), None);
}

#[test]
fn barrier_release_starts_the_measurement_once() {
    let mut a = arbiter(2, 0);
    assert_eq!(a.on_event(Event::BarrierReleased { now: 40 }), Notice::Measuring);
    assert_eq!(a.phase(), Phase::Measuring);
    assert_eq!(a.started_at(), Some(40));
    assert_eq!(a.on_event(Event::BarrierReleased { now: 90 }), Notice::Nothing);
    assert_eq!(a.started_at(), Some(40));
}

#[test]
fn watchdog_is_ignored_during_setup() {
    let mut a = arbiter(2, 1_000);
    assert_eq!(a.on_event(Event::WatchdogFired), Notice::Nothing);
    assert!(!a.is_stopped());
    assert_eq!(a, arbiter(2, 1_000));
}

#[test]
fn watchdog_is_ignored_without_a_budget() {
    let mut a = arbiter(2, 0);
    a.on_event(Event::BarrierReleased { now: 5 });
    assert!(!a.watchdog_armed());
    assert_eq!(a.watchdog_deadline(), None);
    assert_eq!(a.on_event(Event::WatchdogFired), Notice::Nothing);
    assert!(!a.is_stopped());
}

#[test]
fn watchdog_stops_the_measurement() {
    let mut a = arbiter(3, 1_000);
    a.on_event(Event::BarrierReleased { now: 5 });
    assert!(a.watchdog_armed());
    assert_eq!(a.watchdog_deadline(), Some(1_005));
    a.on_event(Event::Completed(Outcome::Succeeded));
    assert_eq!(a.on_event(Event::WatchdogFired), Notice::TimedOut);
    assert_eq!(a.stop(), Some(Stop::Timeout));
    assert!(!a.watchdog_armed());
    assert_eq!(a.watchdog_deadline(), None);
    assert_eq!(a.report(2_000), RunReport::Failure { success: 1, failed: 0, incomplete: 2 });
}

#[test]
fn deadline_stops_at_the_largest_instant() {
    let mut a = arbiter(1, u64::MAX);
    a.on_event(Event::BarrierReleased { now: 5 });
    assert_eq!(a.watchdog_deadline(), Some(u64::MAX));
}

#[test]
fn interrupt_stops_in_any_phase() {
    let mut a = arbiter(2, 0);
    assert_eq!(a.on_event(Event::Interrupt), Notice::Cancelled);
    assert_eq!(a.stop(), Some(Stop::Interrupted));
    assert_eq!(a.report(9), RunReport::Failure { success: 0, failed: 0, incomplete: 2 });

    let mut b = arbiter(2, 0);
    b.on_event(Event::BarrierReleased { now: 1 });
    b.on_event(Event::Completed(Outcome::Failed(Stage::Wait)));
    assert_eq!(b.on_event(Event::Interrupt), Notice::Cancelled);
    assert_eq!(b.stop(), Some(Stop::Interrupted));
    assert_eq!(b.report(9), RunReport::Failure { success: 0, failed: 1, incomplete: 1 });
}

#[test]
fn outcomes_are_counted_in_the_order_they_come() {
    let mut a = arbiter(3, 0);
    a.on_event(Event::BarrierReleased { now: 1 });
    assert_eq!(
        a.on_event(Event::Completed(Outcome::Succeeded)),
        Notice::TaskSucceeded { ordinal: 1 }
    );
    assert_eq!(
        a.on_event(Event::Completed(Outcome::Failed(Stage::Start))),
        Notice::TaskFailed { ordinal: 2, stage: Stage::Start }
    );
    assert_eq!(
        a.on_event(Event::Completed(Outcome::Succeeded)),
        Notice::TaskSucceeded { ordinal: 3 }
    );
    assert_eq!(a.success(), 2);
    assert_eq!(a.failed(), 1);
    assert_eq!(a.pending(), 0);
    assert!(!a.is_stopped());
    assert_eq!(a.on_event(Event::StreamExhausted), Notice::Nothing);
    assert_eq!(a.stop(), Some(Stop::AllReported));
}

#[test]
fn surplus_outcome_is_not_counted() {
    let mut a = arbiter(1, 0);
    a.on_event(Event::Completed(Outcome::Succeeded));
    assert_eq!(a.on_event(Event::Completed(Outcome::Succeeded)), Notice::Nothing);
    assert_eq!(a.on_event(Event::Completed(Outcome::Failed(Stage::Delete))), Notice::Nothing);
    assert_eq!(a.success(), 1);
    assert_eq!(a.failed(), 0);
}

#[test]
fn nothing_changes_after_the_stop() {
    let mut a = arbiter(3, 10);
    a.on_event(Event::BarrierReleased { now: 1 });
    a.on_event(Event::Completed(Outcome::Succeeded));
    a.on_event(Event::Interrupt);
    let stopped = a;
    for event in [
        Event::BarrierReleased { now: 7 },
        Event::WatchdogFired,
        Event::Interrupt,
        Event::Completed(Outcome::Succeeded),
        Event::Completed(Outcome::Failed(Stage::Create)),
        Event::StreamExhausted,
    ] {
        assert_eq!(a.on_event(event), Notice::Nothing);
        assert_eq!(a, stopped);
    }
}

#[test]
fn summary_counts_add_up_to_the_total() {
    let events = [
        Event::Completed(Outcome::Failed(Stage::Construct)),
        Event::BarrierReleased { now: 3 },
        Event::Completed(Outcome::Succeeded),
        Event::WatchdogFired,
        Event::Completed(Outcome::Succeeded),
        Event::Interrupt,
        Event::Completed(Outcome::Succeeded),
    ];
    let mut a = arbiter(5, 0);
    for event in events {
        a.on_event(event);
        let tally = a.report(10).tally();
        assert_eq!(tally.success + tally.failed + tally.incomplete, 5);
    }
    assert_eq!(a.report(10).tally(), Tally { success: 2, failed: 1, incomplete: 2 });
}

#[test]
fn all_successes_make_a_success() {
    let mut a = arbiter(2, 0);
    a.on_event(Event::BarrierReleased { now: 100 });
    a.on_event(Event::Completed(Outcome::Succeeded));
    assert_eq!(a.report(150), RunReport::Failure { success: 1, failed: 0, incomplete: 1 });
    a.on_event(Event::Completed(Outcome::Succeeded));
    a.on_event(Event::StreamExhausted);
    assert_eq!(a.report(350), RunReport::Success { total: 2, elapsed_nanos: Some(250) });
}

#[test]
fn elapsed_is_zero_when_the_clock_ran_backwards() {
    let mut a = arbiter(0, 0);
    a.on_event(Event::BarrierReleased { now: 100 });
    assert_eq!(a.report(40), RunReport::Success { total: 0, elapsed_nanos: Some(0) });
}

#[test]
fn no_tasks_and_no_start_is_a_success_without_measurement() {
    let mut a = arbiter(0, 0);
    a.on_event(Event::StreamExhausted);
    assert_eq!(a.stop(), Some(Stop::AllReported));
    let report = a.report(77);
    assert_eq!(report, RunReport::Success { total: 0, elapsed_nanos: None });
    assert!(!report.has_throughput());
    assert_eq!(report.elapsed_text(), None);
}

#[test]
fn early_end_of_stream_leaves_tasks_incomplete() {
    let mut a = arbiter(3, 0);
    a.on_event(Event::Completed(Outcome::Succeeded));
    a.on_event(Event::StreamExhausted);
    assert_eq!(a.stop(), Some(Stop::AllReported));
    assert_eq!(a.report(1), RunReport::Failure { success: 1, failed: 0, incomplete: 2 });
}

#[test]
fn failures_are_always_shown() {
    let failure = Notice::TaskFailed { ordinal: 1, stage: Stage::Start };
    assert!(failure.shown(false));
    assert!(failure.shown(true));
    let success = Notice::TaskSucceeded { ordinal: 1 };
    assert!(!success.shown(false));
    assert!(success.shown(true));
    assert!(Notice::Measuring.shown(false));
    assert!(Notice::TimedOut.shown(false));
    assert!(Notice::Cancelled.shown(false));
    assert!(!Notice::Nothing.shown(true));
}

#[test]
fn exit_code_is_zero_only_for_a_success() {
    assert_eq!(RunReport::Success { total: 5, elapsed_nanos: Some(1) }.exit_code(), 0);
    assert_eq!(RunReport::Success { total: 0, elapsed_nanos: None }.exit_code(), 0);
    assert_eq!(RunReport::Failure { success: 4, failed: 1, incomplete: 0 }.exit_code(), 1);
    assert_eq!(RunReport::Failure { success: 0, failed: 0, incomplete: 3 }.exit_code(), 1);
    assert!(RunReport::Success { total: 5, elapsed_nanos: Some(1) }.is_success());
    assert!(!RunReport::Failure { success: 4, failed: 1, incomplete: 0 }.is_success());
}

#[test]
fn success_tally_has_no_failures() {
    assert_eq!(
        RunReport::Success { total: 5, elapsed_nanos: None }.tally(),
        Tally { success: 5, failed: 0, incomplete: 0 }
    );
}

#[test]
fn throughput_needs_tasks_and_time() {
    assert!(RunReport::Success { total: 5, elapsed_nanos: Some(1) }.has_throughput());
    assert!(!RunReport::Success { total: 5, elapsed_nanos: Some(0) }.has_throughput());
    assert!(!RunReport::Success { total: 0, elapsed_nanos: Some(9) }.has_throughput());
    assert!(!RunReport::Success { total: 5, elapsed_nanos: None }.has_throughput());
    assert!(!RunReport::Failure { success: 4, failed: 1, incomplete: 0 }.has_throughput());
}

#[test]
fn elapsed_time_reads_in_units() {
    let report = RunReport::Success { total: 1, elapsed_nanos: Some(1_500_000_000) };
    assert_eq!(report.elapsed_text(), Some(String::from("1s 500ms")));
    let report = RunReport::Success { total: 1, elapsed_nanos: Some(9_420_000_000_000) };
    assert_eq!(report.elapsed_text(), Some(String::from("2h 37m")));
    let report = RunReport::Success { total: 1, elapsed_nanos: Some(32_000_001) };
    assert_eq!(report.elapsed_text(), Some(String::from("32ms 1ns")));
    let report = RunReport::Success { total: 1, elapsed_nanos: Some(0) };
    assert_eq!(report.elapsed_text(), Some(String::from("0s")));
    let report = RunReport::Failure { success: 0, failed: 1, incomplete: 0 };
    assert_eq!(report.elapsed_text(), None);
}

#[test]
fn elapsed_text_is_what_humantime_gives() {
    let nanos = 3_723_000_004_005u64;
    let report = RunReport::Success { total: 1, elapsed_nanos: Some(nanos) };
    let expected = humantime::format_duration(std::time::Duration::from_nanos(nanos)).to_string();
    assert_eq!(report.elapsed_text(), Some(expected));
}

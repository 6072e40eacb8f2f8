//! Orchestration core of a stress-test harness.
//!
//! A run drives `count` identical task lifecycles against a backend, at most
//! `parallel` of them in their start phase at once, and reports how many
//! succeeded, failed or never finished. Everything here is a pure decision:
//! the caller performs the backend calls, the waiting and the printing, and
//! hands each result back as an event.
//!
//! - [`config`]: what a run is configured with, and the sizes derived from it.
//! - [`pool`]: the admission controller, a counting permit pool.
//! - [`barrier`]: the one-shot rendezvous that ends the setup phase.
//! - [`driver`]: the lifecycle of one task, as a state machine.
//! - [`arbiter`]: the control loop's decisions and the running tally.
//! - [`report`]: the final summary of a run.
//! - [`census`]: counting drivers by what they are doing.
//! - [`harness`]: all of the above together: a whole run, moved one step at a
//!   time in any order.
pub mod config;
pub mod pool;
pub mod barrier;
pub mod driver;
pub mod report;
pub mod arbiter;
pub mod census;
pub mod harness;

use vstd::prelude::*;

verus! {

/// The three counts that every summary gives.
#[derive(Clone, Copy, Debug, PartialEq, Eq, Structural)]
pub struct Tally {
    pub success: usize,
    pub failed: usize,
    /// Tasks whose outcome was never seen.
    pub incomplete: usize,
}

/// The summary of a run.
#[derive(Clone, Copy, Debug, PartialEq, Eq, Structural)]
pub enum RunReport {
    /// Every task succeeded. `elapsed_nanos` is the length of the
    /// measurement phase, or `None` where the measurement never began.
    Success { total: usize, elapsed_nanos: Option<u64> },
    /// At least one task failed or never reported.
    Failure { success: usize, failed: usize, incomplete: usize },
}

pub const NANOS_PER_SEC: u64 = 1_000_000_000;

/// The text that `humantime::format_duration` displays for a duration of
/// `secs` whole seconds and `subsec_nanos` nanoseconds.
pub uninterp spec fn humantime_format(secs: u64, subsec_nanos: u32) -> Seq<char>;

/// Calls `humantime::format_duration` on the duration of `secs` seconds and
/// `subsec_nanos` nanoseconds and collects what it displays. The text is
/// only given its name here; nothing is claimed of its shape.
#[verifier::external_body]
fn format_duration(secs: u64, subsec_nanos: u32) -> (text: String)
    requires
        subsec_nanos < NANOS_PER_SEC,
    ensures
        text@ == humantime_format(secs, subsec_nanos),
{
    humantime::format_duration(std::time::Duration::new(secs, subsec_nanos)).to_string()
}

impl RunReport {
    pub open spec fn succeeded(self) -> bool {
        self is Success
    }

    /// The counts of the run, whatever its kind.
    pub open spec fn counts(self) -> Tally {
        match self {
            RunReport::Success { total, .. } => Tally { success: total, failed: 0, incomplete: 0 },
            RunReport::Failure { success, failed, incomplete } => Tally {
                success,
                failed,
                incomplete,
            },
        }
    }

    /// A throughput exists where tasks ran and time passed: it is then the
    /// quotient of two positive numbers.
    pub open spec fn measurable(self) -> bool {
        self matches RunReport::Success { total, elapsed_nanos: Some(elapsed) } && total > 0
            && elapsed > 0
    }

    /// What the elapsed time reads as, where there is one.
    pub open spec fn elapsed_label(self) -> Option<Seq<char>> {
        match self {
            RunReport::Success { elapsed_nanos: Some(elapsed), .. } => Some(
                humantime_format(elapsed / NANOS_PER_SEC, (elapsed % NANOS_PER_SEC) as u32),
            ),
            _ => None,
        }
    }

    pub fn is_success(&self) -> (yes: bool)
        ensures
            yes == self.succeeded(),
    {
        match self {
            RunReport::Success { .. } => true,
            RunReport::Failure { .. } => false,
        }
    }

    pub fn tally(&self) -> (tally: Tally)
        ensures
            tally == self.counts(),
    {
        match self {
            RunReport::Success { total, .. } => Tally { success: *total, failed: 0, incomplete: 0 },
            RunReport::Failure { success, failed, incomplete } => Tally {
                success: *success,
                failed: *failed,
                incomplete: *incomplete,
            },
        }
    }

    /// The process exit status that goes with the report: zero for a
    /// success, one for anything else.
    pub fn exit_code(&self) -> (code: u8)
        ensures
            code == (if self.succeeded() { 0u8 } else { 1u8 }),
    {
        match self {
            RunReport::Success { .. } => 0,
            RunReport::Failure { .. } => 1,
        }
    }

    pub fn has_throughput(&self) -> (yes: bool)
        ensures
            yes == self.measurable(),
    {
        match self {
            RunReport::Success { total, elapsed_nanos: Some(elapsed) } => *total > 0 && *elapsed > 0,
            _ => false,
        }
    }

    /// The elapsed time in words, for a success that was measured.
    pub fn elapsed_text(&self) -> (text: Option<String>)
        ensures
            text is Some == self.elapsed_label() is Some,
            text matches Some(t) ==> self.elapsed_label() == Some(t@),
    {
        match self {
            RunReport::Success { elapsed_nanos: Some(elapsed), .. } => {
                let secs: u64 = *elapsed / NANOS_PER_SEC;
                let rest: u64 = *elapsed % NANOS_PER_SEC;
                Some(format_duration(secs, rest as u32))
            },
            _ => None,
        }
    }
}

} // verus!

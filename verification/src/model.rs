use vstd::prelude::*;

verus! {

/// The retry policy for probing one target: `max_attempts` retries after the
/// first attempt (so `max_attempts + 1` attempts in total), a per-attempt
/// timeout handed to the transport, and a fixed delay between attempts.
#[derive(Clone, Copy)]
pub struct RetryPolicy {
    pub max_attempts: u64,
    pub timeout_secs: u64,
    pub delay_ms: u64,
}

/// The recorded result of probing one target: the HTTP status code of the
/// first successful attempt, or the failure description of the last failed
/// attempt.
pub struct Outcome {
    pub target: String,
    pub status: Result<u16, String>,
    pub elapsed_ms: u64,
    pub observed_at: u64,
}

/// The mathematical image of an `Outcome`: strings become char sequences.
pub struct OutcomeView {
    pub target: Seq<char>,
    pub status: Result<u16, Seq<char>>,
    pub elapsed_ms: u64,
    pub observed_at: u64,
}

/// The mathematical image of a status: the reason string becomes a sequence.
pub open spec fn status_view(s: Result<u16, String>) -> Result<u16, Seq<char>> {
    match s {
        Ok(c) => Ok(c),
        Err(e) => Err(e@),
    }
}

impl View for Outcome {
    type V = OutcomeView;

    open spec fn view(&self) -> OutcomeView {
        OutcomeView {
            target: self.target@,
            status: status_view(self.status),
            elapsed_ms: self.elapsed_ms,
            observed_at: self.observed_at,
        }
    }
}

/// The views of a sequence of target strings.
pub open spec fn str_views(s: Seq<String>) -> Seq<Seq<char>> {
    s.map_values(|t: String| t@)
}

/// The views of a sequence of outcomes.
pub open spec fn outcome_views(s: Seq<Outcome>) -> Seq<OutcomeView> {
    s.map_values(|o: Outcome| o@)
}

/// A run-level failure. Individual target failures are data (a `Failure`
/// outcome); these two abort the whole run.
pub enum RunError {
    /// The pool could not be started with at least one worker.
    PoolStartup,
    /// The result stream ended before every submitted target had an outcome.
    ShortRun { received: usize, expected: usize },
}

} // verus!

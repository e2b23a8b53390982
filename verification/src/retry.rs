//! The retry policy: when to keep probing, when to give up, how long to wait.

use vstd::prelude::*;
use crate::outcome::ProbeOutcome;

verus! {

/// What to do after one probe attempt.
///
/// `StopSuccess` and `StopPermanent` end the resolution; `RetryAfter` asks
/// the driver to wait the given number of milliseconds and probe again.
#[derive(Debug, PartialEq, Eq)]
pub enum RetryDecision {
    StopSuccess,
    StopPermanent,
    RetryAfter { delay_ms: u64 },
}

/// Bounded-retry policy with attempt-scaled linear backoff.
///
/// At most `max_attempts` probes are issued per candidate URL. After the
/// `n`-th probe fails transiently (and the budget is not exhausted), the
/// driver is told to wait `base_delay_ms + per_attempt_ms * n` milliseconds.
/// A permanent failure (404) stops immediately regardless of budget.
#[derive(Debug, Clone, Copy, PartialEq, Eq)]
pub struct RetryPolicy {
    pub max_attempts: u32,
    pub base_delay_ms: u64,
    pub per_attempt_ms: u64,
}

impl RetryPolicy {
    /// Bounds that keep every backoff computation inside `u64`.
    pub open spec fn wf(self) -> bool {
        &&& 1 <= self.max_attempts <= 0x10000
        &&& self.base_delay_ms <= 0x1000_0000
        &&& self.per_attempt_ms <= 0x1000_0000
    }

    /// The delay requested after the `attempt`-th transient failure.
    pub open spec fn spec_delay(self, attempt: u32) -> u64
        recommends
            self.wf(),
            attempt <= self.max_attempts,
    {
        (self.base_delay_ms + self.per_attempt_ms * attempt) as u64
    }

    /// The full-strength default: up to 15 attempts, 2750ms base delay plus
    /// 250ms per attempt already made.
    pub fn standard() -> (r: RetryPolicy)
        ensures
            r.wf(),
            r.max_attempts == 15,
            r.base_delay_ms == 2750,
            r.per_attempt_ms == 250,
    {
        RetryPolicy { max_attempts: 15, base_delay_ms: 2750, per_attempt_ms: 250 }
    }

    /// A light-weight fast path: two attempts, 250ms per attempt, no base
    /// delay.
    pub fn quick() -> (r: RetryPolicy)
        ensures
            r.wf(),
            r.max_attempts == 2,
            r.base_delay_ms == 0,
            r.per_attempt_ms == 250,
    {
        RetryPolicy { max_attempts: 2, base_delay_ms: 0, per_attempt_ms: 250 }
    }

    /// Decides what follows the `attempt`-th probe (1-based), which returned
    /// `outcome`: success and 404 stop at once; a transient failure retries
    /// with linear backoff until the attempt budget is exhausted, which is a
    /// permanent failure for this run.
    pub fn decide(&self, outcome: &ProbeOutcome, attempt: u32) -> (r: RetryDecision)
        requires
            self.wf(),
            1 <= attempt <= self.max_attempts,
        ensures
            outcome is Success ==> r == RetryDecision::StopSuccess,
            outcome is NotFound ==> r == RetryDecision::StopPermanent,
            outcome is Transient && attempt == self.max_attempts ==> r
                == RetryDecision::StopPermanent,
            outcome is Transient && attempt < self.max_attempts ==> r == (RetryDecision::RetryAfter {
                delay_ms: self.spec_delay(attempt),
            }),
    {
        match outcome {
            ProbeOutcome::Success { .. } => RetryDecision::StopSuccess,
            ProbeOutcome::NotFound => RetryDecision::StopPermanent,
            ProbeOutcome::Transient => {
                if attempt >= self.max_attempts {
                    RetryDecision::StopPermanent
                } else {
                    assert(self.per_attempt_ms * attempt <= 0x1000_0000 * 0x10000) by (nonlinear_arith)
                        requires
                            self.per_attempt_ms <= 0x1000_0000,
                            attempt <= 0x10000,
                    ;
                    RetryDecision::RetryAfter {
                        delay_ms: self.base_delay_ms + self.per_attempt_ms * (attempt as u64),
                    }
                }
            },
        }
    }
}

} // verus!

//! Retry policy of the HTTP transport.
//!
//! A request is attempted up to `max_attempts` times.  Every attempt but the
//! last is followed, on failure, by a sleep whose length starts at
//! `initial_delay_ms` and doubles after every failed attempt (saturating);
//! a zero delay never sleeps and never grows.  The final attempt's outcome is
//! returned to the caller as it is.  The process around the library performs
//! the sends and the sleeps; this module fixes how many attempts are made and
//! how long each pause is.

use vstd::prelude::*;

verus! {

/// Saturating doubling, the growth step of the backoff delay.
pub open spec fn spec_double_saturating(d: u64) -> u64 {
    if 2 * d > u64::MAX {
        u64::MAX
    } else {
        (2 * d) as u64
    }
}

/// The sleep that follows the `k + 1`-th failed attempt: the initial delay
/// doubled `k` times, saturating at `u64::MAX` milliseconds.
pub open spec fn spec_backoff_delay(initial_ms: u64, k: nat) -> u64
    decreases k,
{
    if k == 0 {
        initial_ms
    } else {
        spec_double_saturating(spec_backoff_delay(initial_ms, (k - 1) as nat))
    }
}

/// Bounded retries with exponential backoff.
pub struct RetryPolicy {
    /// How many times a request is attempted in all; at least 1.
    pub max_attempts: usize,
    /// The sleep after the first failed attempt, in milliseconds.
    pub initial_delay_ms: u64,
}

impl RetryPolicy {
    /// Invariant every constructed policy satisfies.
    pub open spec fn wf(self) -> bool {
        self.max_attempts >= 1
    }

    /// Builds a policy; a `max_attempts` of zero is clamped to 1.
    pub fn new(max_attempts: usize, initial_delay_ms: u64) -> (r: RetryPolicy)
        ensures
            r.wf(),
            r.max_attempts == if max_attempts >= 1 {
                max_attempts as int
            } else {
                1int
            },
            r.initial_delay_ms == initial_delay_ms,
    {
        let attempts = if max_attempts >= 1 {
            max_attempts
        } else {
            1
        };
        RetryPolicy { max_attempts: attempts, initial_delay_ms }
    }

    /// The sleeps between consecutive attempts, in order: entry `k` is the
    /// pause between attempt `k + 1` and attempt `k + 2`.  There is no pause
    /// after the final attempt, so the plan has `max_attempts - 1` entries.
    pub fn backoff_plan(&self) -> (delays: Vec<u64>)
        requires
            self.wf(),
        ensures
            delays.len() == self.max_attempts - 1,
            forall|k: int|
                0 <= k < delays.len() ==> delays[k] == spec_backoff_delay(
                    self.initial_delay_ms,
                    k as nat,
                ),
    {
        let mut delays: Vec<u64> = Vec::new();
        let mut delay: u64 = self.initial_delay_ms;
        let mut k: usize = 0;
        while k < self.max_attempts - 1
            invariant
                self.wf(),
                k == delays.len(),
                k <= self.max_attempts - 1,
                delay == spec_backoff_delay(self.initial_delay_ms, k as nat),
                forall|j: int|
                    0 <= j < k ==> delays[j] == spec_backoff_delay(
                        self.initial_delay_ms,
                        j as nat,
                    ),
            decreases self.max_attempts - 1 - k,
        {
            delays.push(delay);
            delay = double_saturating(delay);
            k = k + 1;
        }
        delays
    }
}

/// The progress of one attempt chain: how many attempts have been made
/// and the pause a further failure would cost.
#[derive(Debug, Clone, Copy, PartialEq, Eq, Structural)]
pub struct RetryState {
    /// Attempts made so far, counting the one whose outcome is at hand.
    pub attempt: usize,
    /// The sleep before the next attempt, should this one fail.
    pub delay_ms: u64,
}

/// What to do after a failed attempt.
#[derive(Debug, Clone, Copy, PartialEq, Eq, Structural)]
pub enum RetryDecision {
    /// Pause for `sleep_ms` (a zero pause means none) and try again.
    Retry { sleep_ms: u64, next: RetryState },
    /// The attempts are exhausted: the failure is returned to the caller.
    GiveUp,
}

impl RetryPolicy {
    /// The state in which the first attempt is made.
    pub fn start(&self) -> (r: RetryState)
        ensures
            r.attempt == 1,
            r.delay_ms == self.initial_delay_ms,
    {
        RetryState { attempt: 1, delay_ms: self.initial_delay_ms }
    }

    /// Decides after a failed attempt: every attempt but the last is
    /// followed by the current pause and a doubled one for next time; the
    /// final attempt's failure is given up to the caller directly.
    pub fn on_failure(&self, state: RetryState) -> (r: RetryDecision)
        requires
            state.attempt >= 1,
        ensures
            state.attempt < self.max_attempts ==> r == (RetryDecision::Retry {
                sleep_ms: state.delay_ms,
                next: RetryState {
                    attempt: (state.attempt + 1) as usize,
                    delay_ms: spec_double_saturating(state.delay_ms),
                },
            }),
            state.attempt >= self.max_attempts ==> r == RetryDecision::GiveUp,
    {
        if state.attempt < self.max_attempts {
            RetryDecision::Retry {
                sleep_ms: state.delay_ms,
                next: RetryState {
                    attempt: state.attempt + 1,
                    delay_ms: double_saturating(state.delay_ms),
                },
            }
        } else {
            RetryDecision::GiveUp
        }
    }
}

/// Doubles a delay, saturating at `u64::MAX`.
fn double_saturating(d: u64) -> (r: u64)
    ensures
        r == spec_double_saturating(d),
{
    if d > u64::MAX / 2 {
        u64::MAX
    } else {
        2 * d
    }
}

/// A delay of zero stays zero forever: a transport configured without an
/// initial delay never sleeps between attempts.
pub proof fn lemma_zero_delay_stays_zero(k: nat)
    ensures
        spec_backoff_delay(0, k) == 0,
    decreases k,
{
    if k > 0 {
        lemma_zero_delay_stays_zero((k - 1) as nat);
    }
}

} // verus!

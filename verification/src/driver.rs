//! The pipeline driver's retry policy: exponential backoff around `publish`
//! with a bounded number of attempts, after which the failure is surfaced as
//! `PublishError::Exhausted`, never swallowed.  The waiting and the sends are
//! the loop's I/O; the decisions are all here.
use vstd::prelude::*;

verus! {

/// Why a publish ultimately failed.
#[derive(Clone, Copy, PartialEq, Eq, Structural, Debug)]
pub enum PublishError {
    /// One send was not acknowledged inside the configured timeout.
    Timeout,
    /// Every allowed attempt timed out; the event must be surfaced.
    Exhausted,
}

/// What the broker answered to one send.
#[derive(Clone, Copy, PartialEq, Eq, Structural, Debug)]
pub enum SendResult {
    Acked,
    TimedOut,
}

/// What the driver does after one send result.
#[derive(Clone, Copy, PartialEq, Eq, Structural, Debug)]
pub enum RetryDecision {
    /// Acknowledged: the event is delivered.
    Done,
    /// Wait this many milliseconds, then send again.
    RetryAfter(u64),
    /// The attempt budget is spent: surface `PublishError::Exhausted`.
    Exhausted,
}

/// The retry policy: at most `max_attempts` sends, exponential backoff from
/// `base_delay_ms`.
#[derive(Clone, Copy, PartialEq, Eq, Structural, Debug)]
pub struct RetryPolicy {
    pub max_attempts: u32,
    pub base_delay_ms: u64,
}

/// The delay before attempt `attempt + 2`: the base delay doubled per
/// attempt already made, saturating at u64::MAX.
pub open spec fn backoff_ms(base: u64, attempt: u32) -> u64
    decreases attempt,
{
    if attempt == 0 {
        base
    } else {
        let p = backoff_ms(base, (attempt - 1) as u32);
        if p > u64::MAX / 2 {
            u64::MAX
        } else {
            (2 * p) as u64
        }
    }
}

/// One decision of the retry machine: `attempts` sends were already made,
/// the last one answered `res`.
pub open spec fn spec_retry_step(p: RetryPolicy, attempts: u32, res: SendResult) -> (
    u32,
    RetryDecision,
) {
    match res {
        SendResult::Acked => (attempts, RetryDecision::Done),
        SendResult::TimedOut => {
            if attempts + 1 >= p.max_attempts {
                (attempts, RetryDecision::Exhausted)
            } else {
                ((attempts + 1) as u32, RetryDecision::RetryAfter(backoff_ms(p.base_delay_ms, attempts)))
            }
        },
    }
}

/// The retry state the driver holds for one event in flight.
pub struct Retry {
    pub policy: RetryPolicy,
    pub attempts: u32,
}

impl Retry {
    /// Fresh state for one event, before its first send.
    pub fn new(policy: RetryPolicy) -> (r: Retry)
        ensures
            r.policy == policy,
            r.attempts == 0u32,
    {
        Retry { policy, attempts: 0 }
    }

    /// Digests one send result: the exact executable mirror of
    /// `spec_retry_step`.
    pub fn on_result(&mut self, res: SendResult) -> (r: RetryDecision)
        ensures
            final(self).policy == old(self).policy,
            final(self).attempts == spec_retry_step(old(self).policy, old(self).attempts, res).0,
            r == spec_retry_step(old(self).policy, old(self).attempts, res).1,
    {
        match res {
            SendResult::Acked => RetryDecision::Done,
            SendResult::TimedOut => {
                if self.attempts as u64 + 1 >= self.policy.max_attempts as u64 {
                    RetryDecision::Exhausted
                } else {
                    let d = backoff(self.policy.base_delay_ms, self.attempts);
                    self.attempts = self.attempts + 1;
                    RetryDecision::RetryAfter(d)
                }
            },
        }
    }
}

/// The backoff delay, computed as `backoff_ms` states it.
pub fn backoff(base: u64, attempt: u32) -> (r: u64)
    ensures
        r == backoff_ms(base, attempt),
    decreases attempt,
{
    if attempt == 0 {
        base
    } else {
        let p = backoff(base, attempt - 1);
        if p > u64::MAX / 2 {
            u64::MAX
        } else {
            2 * p
        }
    }
}

// ---------------------------------------------------------------------------
// Law: a publish that times out on every attempt is exhausted, audibly
// ---------------------------------------------------------------------------

/// The decision after `n` consecutive timeouts from a state with `attempts`
/// sends already made.
pub open spec fn drive_timeouts(p: RetryPolicy, attempts: u32, n: nat) -> RetryDecision
    decreases n,
{
    if n <= 1 {
        spec_retry_step(p, attempts, SendResult::TimedOut).1
    } else {
        drive_timeouts(p, spec_retry_step(p, attempts, SendResult::TimedOut).0, (n - 1) as nat)
    }
}

proof fn lemma_timeouts_exhaust_from(p: RetryPolicy, attempts: u32, n: nat)
    requires
        n >= 1,
        attempts + n == p.max_attempts,
    ensures
        drive_timeouts(p, attempts, n) == RetryDecision::Exhausted,
    decreases n,
{
    if n > 1 {
        lemma_timeouts_exhaust_from(p, (attempts + 1) as u32, (n - 1) as nat);
    }
}

/// Law: when every one of the allowed `max_attempts` sends times out, the
/// driver's decision after the last of them is `Exhausted` — the event is
/// surfaced to the caller, never silently dropped.
pub proof fn lemma_timeouts_exhaust(p: RetryPolicy)
    requires
        p.max_attempts >= 1,
    ensures
        drive_timeouts(p, 0, p.max_attempts as nat) == RetryDecision::Exhausted,
{
    lemma_timeouts_exhaust_from(p, 0, p.max_attempts as nat);
}

} // verus!

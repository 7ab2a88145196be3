//! Bounded retry with doubling backoff.
//!
//! A connection or protocol failure is retried a bounded number of times
//! before the typed failure is surfaced to the caller.  The decision —
//! whether a failed attempt gets another try, and after how long — is a
//! pure function of the policy and the attempt number; the waiting and
//! the attempts themselves happen outside the library.

use vstd::prelude::*;

verus! {

/// How often to try in all, and how long to wait before the first retry.
/// Each further retry waits twice as long as the one before it.
#[derive(Clone, Copy, PartialEq, Eq, Structural, Debug)]
pub struct RetryPolicy {
    pub max_attempts: u32,
    pub base_delay_ms: u64,
}

/// What to do after a failed attempt.
#[derive(Clone, Copy, PartialEq, Eq, Structural, Debug)]
pub enum RetryDecision {
    /// Try again after this many milliseconds.
    Retry { delay_ms: u64 },
    /// The attempts are used up; surface the failure.
    GiveUp,
}

/// The backoff before retry number `k + 1`: the base delay doubled `k`
/// times, as an unbounded number.
pub open spec fn spec_backoff(base: u64, k: nat) -> nat
    decreases k,
{
    if k == 0 {
        base as nat
    } else {
        2 * spec_backoff(base, (k - 1) as nat)
    }
}

/// The base delay doubled `k` times, saturating at the largest `u64`.
fn backoff_delay(base: u64, k: u32) -> (r: u64)
    ensures
        spec_backoff(base, k as nat) <= u64::MAX ==> r == spec_backoff(base, k as nat),
        spec_backoff(base, k as nat) > u64::MAX ==> r == u64::MAX,
{
    let mut d = base;
    let mut i: u32 = 0;
    while i < k
        invariant
            0 <= i <= k,
            spec_backoff(base, i as nat) <= u64::MAX ==> d == spec_backoff(base, i as nat),
            spec_backoff(base, i as nat) > u64::MAX ==> d == u64::MAX,
        decreases k - i,
    {
        proof {
            assert(spec_backoff(base, (i + 1) as nat) == 2 * spec_backoff(base, i as nat));
        }
        if d > u64::MAX / 2 {
            d = u64::MAX;
        } else {
            d = 2 * d;
        }
        i += 1;
    }
    d
}

/// Decides what follows the failure of attempt number `attempt` (counted
/// from zero): another try exactly while the policy's attempt budget is
/// not used up, with the doubling backoff for that retry.
pub fn next_attempt(policy: &RetryPolicy, attempt: u32) -> (r: RetryDecision)
    ensures
        (attempt + 1 < policy.max_attempts) <==> (r is Retry),
        r matches RetryDecision::Retry { delay_ms } ==> {
            &&& spec_backoff(policy.base_delay_ms, attempt as nat) <= u64::MAX ==> delay_ms
                == spec_backoff(policy.base_delay_ms, attempt as nat)
            &&& spec_backoff(policy.base_delay_ms, attempt as nat) > u64::MAX ==> delay_ms
                == u64::MAX
        },
{
    if attempt >= u32::MAX - 1 || attempt + 1 >= policy.max_attempts {
        RetryDecision::GiveUp
    } else {
        RetryDecision::Retry { delay_ms: backoff_delay(policy.base_delay_ms, attempt) }
    }
}

} // verus!

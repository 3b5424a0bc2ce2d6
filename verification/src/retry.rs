//! When a remote call that failed is tried again, and after what delay.
//!
//! Only a failure that may pass is retried, a bounded number of times, and
//! the delay doubles from one try to the next up to a ceiling.

use vstd::prelude::*;
use crate::store::StoreError;

verus! {

/// The bounds of retrying: the number of tries in all, the delay before the
/// first retry and the longest delay, both in milliseconds.
#[derive(Clone, Copy, Debug, PartialEq, Eq, Structural)]
pub struct RetryPolicy {
    pub max_attempts: u32,
    pub base_delay_ms: u64,
    pub max_delay_ms: u64,
}

impl Default for RetryPolicy {
    /// Five tries, the first retry after a tenth of a second, none later
    /// than five seconds after the try before it.
    fn default() -> (policy: Self)
        ensures
            policy == (RetryPolicy { max_attempts: 5, base_delay_ms: 100, max_delay_ms: 5000 }),
    {
        RetryPolicy { max_attempts: 5, base_delay_ms: 100, max_delay_ms: 5000 }
    }
}

/// A failure that may pass when the call is made again: the backend could
/// not be reached or asked to slow down. Every other failure is final.
pub open spec fn is_transient(error: StoreError) -> bool {
    error == StoreError::BackendUnavailable
}

/// `base` doubled `times` times.
pub open spec fn doubled(base: nat, times: nat) -> nat
    decreases times,
{
    if times == 0 {
        base
    } else {
        2 * doubled(base, (times - 1) as nat)
    }
}

/// The smaller of two numbers.
pub open spec fn at_most(a: nat, ceiling: nat) -> nat {
    if a <= ceiling {
        a
    } else {
        ceiling
    }
}

impl RetryPolicy {
    /// The delay after `failed` tries have failed: the first delay doubled
    /// with each further failure, and never above the longest delay.
    pub open spec fn delay_after(self, failed: nat) -> nat
        recommends
            failed >= 1,
    {
        at_most(doubled(self.base_delay_ms as nat, (failed - 1) as nat), self.max_delay_ms as nat)
    }

    /// Whether the call is made again after its try number `failed` failed
    /// with `error`.
    pub open spec fn retries(self, error: StoreError, failed: nat) -> bool {
        is_transient(error) && 1 <= failed < self.max_attempts
    }

    /// Decides what follows the failure of try number `failed`, counted from
    /// one: `Some` with the milliseconds to wait before the next try, or
    /// `None` where the error is to surface.
    pub fn next_delay(&self, error: StoreError, failed: u32) -> (delay: Option<u64>)
        ensures
            delay is Some <==> self.retries(error, failed as nat),
            delay is Some ==> delay->Some_0 == self.delay_after(failed as nat),
            delay is Some ==> delay->Some_0 <= self.max_delay_ms,
    {
        let transient = match error {
            StoreError::BackendUnavailable => true,
            _ => false,
        };
        if !transient || failed < 1 || failed >= self.max_attempts {
            return None;
        }
        let ceiling: u64 = self.max_delay_ms;
        let mut delay: u64 = if self.base_delay_ms <= ceiling {
            self.base_delay_ms
        } else {
            ceiling
        };
        let mut i: u32 = 1;
        while i < failed && delay < ceiling
            invariant
                1 <= i <= failed,
                ceiling == self.max_delay_ms,
                delay == at_most(doubled(self.base_delay_ms as nat, (i - 1) as nat), ceiling as nat),
            decreases failed - i,
        {
            delay = if delay > ceiling / 2 {
                ceiling
            } else {
                delay * 2
            };
            i += 1;
        }
        proof {
            if i < failed {
                lemma_doubled_grows(self.base_delay_ms as nat, (i - 1) as nat, (failed - 1) as nat);
            }
        }
        Some(delay)
    }
}

/// Doubling more often never gives less.
pub proof fn lemma_doubled_grows(base: nat, fewer: nat, more: nat)
    requires
        fewer <= more,
    ensures
        doubled(base, fewer) <= doubled(base, more),
    decreases more,
{
    if fewer < more {
        lemma_doubled_grows(base, fewer, (more - 1) as nat);
    }
}

/// The delay is bounded, and it never shrinks from one try to the next.
pub proof fn lemma_delay_bounded_and_growing(policy: RetryPolicy, failed: nat)
    requires
        failed >= 1,
    ensures
        policy.delay_after(failed) <= policy.max_delay_ms,
        policy.delay_after(failed) <= policy.delay_after(failed + 1),
{
    lemma_doubled_grows(policy.base_delay_ms as nat, (failed - 1) as nat, failed);
}

} // verus!

//! Bounded-attempt polling with exponential backoff.
//!
//! Waiting for an external resource is never an unbounded busy-wait: each
//! attempt is followed by a delay that doubles up to a cap, and after a
//! configured number of attempts the poll gives up and the caller turns
//! that into a failure at the level it polls for.

use vstd::prelude::*;

use crate::stats::sat_add;

verus! {

/// A value clipped to a cap.
pub open spec fn capped(v: u64, cap: u64) -> u64 {
    if v > cap {
        cap
    } else {
        v
    }
}

/// The delay before retry number `attempt`: the base delay doubled once
/// per prior attempt, never above the cap.
pub open spec fn backoff_delay(base: u64, cap: u64, attempt: nat) -> u64
    decreases attempt,
{
    if attempt == 0 {
        capped(base, cap)
    } else {
        let prev = backoff_delay(base, cap, (attempt - 1) as nat);
        capped(sat_add(prev, prev), cap)
    }
}

/// Once the delay is zero or at the cap, further doubling leaves it there.
proof fn lemma_backoff_stable(base: u64, cap: u64, m: nat, n: nat)
    requires
        m <= n,
        backoff_delay(base, cap, m) == 0 || backoff_delay(base, cap, m) == cap,
    ensures
        backoff_delay(base, cap, n) == backoff_delay(base, cap, m),
    decreases n - m,
{
    if n > m {
        lemma_backoff_stable(base, cap, m, (n - 1) as nat);
    }
}

/// What to do after an attempt has failed.
#[derive(Clone, Copy, Debug, PartialEq, Eq, Structural)]
pub enum PollDecision {
    /// Try again after this many milliseconds.
    RetryAfter(u64),
    /// The attempt budget is exhausted: surface a failure.
    GiveUp,
}

/// How a caller polls an external resource: a base delay, a delay cap,
/// and a hard attempt budget.
pub struct BackoffPolicy {
    pub base_delay_ms: u64,
    pub max_delay_ms: u64,
    pub max_attempts: u64,
}

impl BackoffPolicy {
    /// The delay before retry number `attempt`.
    pub fn delay_for(&self, attempt: u64) -> (r: u64)
        ensures
            r == backoff_delay(self.base_delay_ms, self.max_delay_ms, attempt as nat),
    {
        let cap = self.max_delay_ms;
        let mut d = if self.base_delay_ms > cap {
            cap
        } else {
            self.base_delay_ms
        };
        let mut i: u64 = 0;
        while i < attempt
            invariant_except_break
                i <= attempt,
                d == backoff_delay(self.base_delay_ms, cap, i as nat),
            ensures
                d == backoff_delay(self.base_delay_ms, cap, attempt as nat),
            decreases attempt - i,
        {
            if d == 0 || d == cap {
                proof {
                    lemma_backoff_stable(self.base_delay_ms, cap, i as nat, attempt as nat);
                }
                break ;
            }
            let doubled = d.saturating_add(d);
            d = if doubled > cap {
                cap
            } else {
                doubled
            };
            i = i + 1;
        }
        d
    }

    /// Decides after a failed attempt: retry with the next delay while the
    /// budget lasts, and give up exactly when `attempt` reaches the
    /// configured maximum.
    pub fn next_poll(&self, attempt: u64) -> (r: PollDecision)
        ensures
            attempt >= self.max_attempts ==> r == PollDecision::GiveUp,
            attempt < self.max_attempts ==> r == PollDecision::RetryAfter(
                backoff_delay(self.base_delay_ms, self.max_delay_ms, attempt as nat),
            ),
    {
        if attempt >= self.max_attempts {
            PollDecision::GiveUp
        } else {
            PollDecision::RetryAfter(self.delay_for(attempt))
        }
    }
}

} // verus!

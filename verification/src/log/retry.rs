//! The optimistic concurrency protocol's retry budget: after a lost commit
//! race a writer waits, re-reads the head and tries again, a bounded
//! number of times and with growing delays.

use crate::error::{LakehouseError, OperationClass};
use vstd::prelude::*;

verus! {

/// How often and how long a writer waits between attempts.
#[derive(Debug, Clone, Copy, PartialEq, Eq, Structural)]
pub struct RetryPolicy {
    /// The number of retries after the first attempt.
    pub max_retries: u32,
    /// The delay before the first retry, in milliseconds.
    pub initial_delay_ms: u64,
}

/// What a writer does after an attempt.
#[derive(Debug, Clone)]
pub enum RetryStep {
    /// The attempt succeeded with this version.
    Done(i64),
    /// Wait at least `delay_ms`, re-read the head, and make attempt number
    /// `attempt`.
    Retry { attempt: u32, delay_ms: u64 },
    /// Give up and surface the error.
    Fail(LakehouseError),
}

/// Two to the power `k`.
pub open spec fn pow2(k: nat) -> nat
    decreases k,
{
    if k == 0 {
        1
    } else {
        2 * pow2((k - 1) as nat)
    }
}

/// The delay before retry number `retry` (counting from 0): the initial
/// delay doubled once per earlier retry, capped at the largest delay that
/// can be represented.
pub open spec fn backoff(initial_delay_ms: nat, retry: nat) -> nat {
    if initial_delay_ms * pow2(retry) > u64::MAX {
        u64::MAX as nat
    } else {
        initial_delay_ms * pow2(retry)
    }
}

/// Every power of two is positive, and the next is twice as large.
pub proof fn lemma_pow2_grows(k: nat)
    ensures
        pow2(k) >= 1,
        pow2(k + 1) == 2 * pow2(k),
    decreases k,
{
    if k > 0 {
        lemma_pow2_grows((k - 1) as nat);
    }
}

impl RetryPolicy {
    /// The default budget: 5 retries, starting at 10 ms.
    pub fn new() -> (policy: RetryPolicy)
        ensures
            policy == (RetryPolicy { max_retries: 5, initial_delay_ms: 10 }),
    {
        RetryPolicy { max_retries: 5, initial_delay_ms: 10 }
    }

    /// The delay before retry number `retry`, without jitter.
    pub fn delay_ms(&self, retry: u32) -> (delay: u64)
        ensures
            delay == backoff(self.initial_delay_ms as nat, retry as nat),
    {
        let mut delay: u64 = self.initial_delay_ms;
        let mut k: u32 = 0;
        assert(pow2(0) == 1);
        while k < retry
            invariant
                k <= retry,
                delay == backoff(self.initial_delay_ms as nat, k as nat),
            decreases retry - k,
        {
            proof {
                lemma_pow2_grows(k as nat);
                assert(self.initial_delay_ms * pow2(k as nat + 1) == 2 * (self.initial_delay_ms
                    * pow2(k as nat))) by (nonlinear_arith)
                    requires
                        pow2(k as nat + 1) == 2 * pow2(k as nat),
                ;
                if self.initial_delay_ms * pow2(k as nat) > u64::MAX {
                    assert(self.initial_delay_ms * pow2(k as nat + 1) > u64::MAX);
                }
            }
            delay = if delay > u64::MAX / 2 {
                u64::MAX
            } else {
                delay * 2
            };
            proof {
                if self.initial_delay_ms * pow2(k as nat) <= u64::MAX && delay == u64::MAX
                    && self.initial_delay_ms * pow2(k as nat + 1) < u64::MAX {
                    assert(false);
                }
            }
            k += 1;
        }
        delay
    }

    /// The delay with jitter: the plain delay plus a share of it that the
    /// caller's random number picks, capped like the delay itself. The
    /// result lies between the plain delay and twice the plain delay.
    pub fn jittered_delay_ms(&self, retry: u32, random: u64) -> (delay: u64)
        ensures
            ({
                let plain = backoff(self.initial_delay_ms as nat, retry as nat);
                let extra = random as nat % (plain + 1);
                delay == if plain + extra > u64::MAX {
                    u64::MAX as nat
                } else {
                    plain + extra
                }
            }),
    {
        let plain = self.delay_ms(retry);
        let extra = if plain == u64::MAX {
            random
        } else {
            random % (plain + 1)
        };
        if extra > u64::MAX - plain {
            u64::MAX
        } else {
            plain + extra
        }
    }

    /// Decides what follows an attempt. `retries_done` counts the retries
    /// made so far: 0 after the first attempt.
    ///
    /// A success is done. An error that an operation of this class may
    /// retry leads to another attempt while the budget lasts; when it is
    /// used up, or on any other error, the error is surfaced.
    pub fn next_step(
        &self,
        class: OperationClass,
        retries_done: u32,
        outcome: Result<i64, LakehouseError>,
    ) -> (step: RetryStep)
        ensures
            match outcome {
                Ok(version) => step == RetryStep::Done(version),
                Err(error) => if error.spec_kind().spec_is_retryable(class) && retries_done
                    < self.max_retries {
                    step == (RetryStep::Retry {
                        attempt: (retries_done + 1) as u32,
                        delay_ms: backoff(self.initial_delay_ms as nat, retries_done as nat) as u64,
                    })
                } else {
                    step == RetryStep::Fail(error)
                },
            },
    {
        match outcome {
            Ok(version) => RetryStep::Done(version),
            Err(error) => {
                if error.kind().is_retryable(class) && retries_done < self.max_retries {
                    RetryStep::Retry {
                        attempt: retries_done + 1,
                        delay_ms: self.delay_ms(retries_done),
                    }
                } else {
                    RetryStep::Fail(error)
                }
            },
        }
    }
}

} // verus!

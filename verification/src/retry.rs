use vstd::arithmetic::power2::{lemma_pow2_strictly_increases, lemma_pow2_unfold, pow2};
use vstd::prelude::*;

verus! {

/// How often an operation that may fail is tried, and how long to wait
/// between tries.
#[derive(Clone, Copy, Debug, PartialEq, Eq, Structural)]
pub struct RetryPolicy {
    /// The most attempts that are ever made.
    pub max_attempts: u32,
    /// The delay in seconds that doubles with each attempt.
    pub base_delay_secs: u64,
}

/// What the caller does next.
#[derive(Clone, Copy, Debug, PartialEq, Eq, Structural)]
pub enum RetryStep {
    /// Wait `delay_secs`, then make attempt `number`, counted from 1.
    Attempt { number: u32, delay_secs: u64 },
    /// Stop: `attempts` attempts were made and all failed.
    Exhausted { attempts: u32 },
}

/// The delay before attempt `attempt`: none before the first, then the base
/// delay doubled once per attempt so far, held to what a `u64` can hold.
pub open spec fn delay_secs(base: nat, attempt: nat) -> nat {
    if attempt <= 1 {
        0
    } else if base * pow2((attempt - 1) as nat) > u64::MAX {
        u64::MAX as nat
    } else {
        base * pow2((attempt - 1) as nat)
    }
}

impl RetryPolicy {
    /// The step that follows `made` failed attempts.
    pub open spec fn step_after(self, made: nat) -> RetryStep {
        if made < self.max_attempts {
            RetryStep::Attempt {
                number: (made + 1) as u32,
                delay_secs: delay_secs(self.base_delay_secs as nat, made + 1) as u64,
            }
        } else {
            RetryStep::Exhausted { attempts: self.max_attempts }
        }
    }

    /// The delay in seconds before attempt `attempt`.
    pub fn delay_before(&self, attempt: u32) -> (d: u64)
        ensures
            d == delay_secs(self.base_delay_secs as nat, attempt as nat),
    {
        let base = self.base_delay_secs;
        if attempt <= 1 {
            return 0;
        }
        if base == 0 {
            assert(0 * pow2((attempt - 1) as nat) == 0) by (nonlinear_arith);
            return 0;
        }
        let mut d: u64 = base;
        let mut k: u32 = 0;
        proof {
            lemma_pow2_unfold(1);
            assert(pow2(0) == 1) by {
                vstd::arithmetic::power2::lemma2_to64();
            }
            assert(base * 1 == base);
        }
        while k < attempt - 1
            invariant
                k <= attempt - 1,
                base == self.base_delay_secs,
                base >= 1,
                d == base * pow2(k as nat),
            decreases attempt - 1 - k,
        {
            proof {
                lemma_pow2_unfold((k + 1) as nat);
                assert(base * (2 * pow2(k as nat)) == 2 * (base * pow2(k as nat)))
                    by (nonlinear_arith);
            }
            if d > u64::MAX / 2 {
                proof {
                    let top = pow2((attempt - 1) as nat);
                    let next = pow2((k + 1) as nat);
                    if k + 1 < attempt - 1 {
                        lemma_pow2_strictly_increases((k + 1) as nat, (attempt - 1) as nat);
                    }
                    assert(next <= top);
                    assert(base * next <= base * top) by (nonlinear_arith)
                        requires
                            next <= top,
                            base >= 1,
                    ;
                }
                return u64::MAX;
            }
            d = d * 2;
            k = k + 1;
        }
        d
    }

    /// The first step: attempt 1 at once, unless no attempt is allowed.
    pub fn first_step(&self) -> (step: RetryStep)
        ensures
            step == self.step_after(0),
    {
        self.after_failures(0)
    }

    /// The step that follows `made` attempts, all of which failed.
    pub fn after_failures(&self, made: u32) -> (step: RetryStep)
        ensures
            step == self.step_after(made as nat),
    {
        if made < self.max_attempts {
            RetryStep::Attempt { number: made + 1, delay_secs: self.delay_before(made + 1) }
        } else {
            RetryStep::Exhausted { attempts: self.max_attempts }
        }
    }
}

/// No step ever asks for more attempts than the policy allows, attempts are
/// numbered in order, and after `max_attempts` failures the policy gives up.
pub proof fn lemma_retry_is_bounded(policy: RetryPolicy, made: nat)
    ensures
        policy.step_after(made) matches RetryStep::Attempt { number, .. } ==> number == made + 1
            && number <= policy.max_attempts,
        policy.step_after(made) is Exhausted <==> made >= policy.max_attempts,
{
}

/// The delay never shrinks from one attempt to the next.
pub proof fn lemma_delay_grows(base: nat, attempt: nat)
    ensures
        delay_secs(base, attempt) <= delay_secs(base, attempt + 1),
{
    if attempt >= 1 {
        let lo = pow2((attempt - 1) as nat);
        let hi = pow2(attempt);
        lemma_pow2_unfold(attempt);
        assert(base * lo <= base * hi) by (nonlinear_arith)
            requires
                hi == 2 * lo,
        ;
    }
}

} // verus!

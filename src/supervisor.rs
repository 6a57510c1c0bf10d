//! Retry policy for establishing the shared store connection.
//!
//! The supervisor is a state machine: the caller makes one attempt (connect,
//! then a liveness probe), reports whether it succeeded, and is told what to
//! do next: stop with a ready handle, sleep and try again, or give up.
use vstd::arithmetic::power2::{pow2, lemma_pow2_unfold, lemma_pow2_pos};
use vstd::prelude::*;

verus! {

/// Backoff parameters and the attempt budget.
#[derive(Clone, Copy, Debug, PartialEq, Eq, Structural)]
pub struct RetryPolicy {
    pub initial_backoff_ms: u64,
    pub max_backoff_ms: u64,
    pub max_attempts: u32,
}

/// The smaller of two integers.
pub open spec fn min_int(a: int, b: int) -> int {
    if a <= b { a } else { b }
}

/// The delay that follows the `k`-th consecutive failure (`k >= 1`):
/// `min(initial * 2^(k-1), cap)`.
pub open spec fn backoff_for(policy: RetryPolicy, k: nat) -> int {
    min_int(policy.initial_backoff_ms * pow2((k - 1) as nat), policy.max_backoff_ms as int)
}

/// What the caller must do after reporting the outcome of an attempt.
#[derive(Clone, Copy, Debug, PartialEq, Eq, Structural)]
pub enum Step {
    /// The connection is up and verified; use it.
    Ready,
    /// Sleep `delay_ms`, then make attempt number `attempt`.
    Retry { delay_ms: u64, attempt: u32 },
    /// The attempt budget is exhausted; startup cannot continue.
    GiveUp,
}

/// Where the supervisor stands.
#[derive(Clone, Copy, Debug, PartialEq, Eq, Structural)]
pub enum Phase {
    Connecting,
    Ready,
    Failed,
}

/// The step that answers the `k`-th consecutive failure.
pub open spec fn failure_step(policy: RetryPolicy, k: nat) -> Step {
    if k >= policy.max_attempts {
        Step::GiveUp
    } else {
        Step::Retry { delay_ms: backoff_for(policy, k) as u64, attempt: (k + 1) as u32 }
    }
}

pub struct Supervisor {
    pub policy: RetryPolicy,
    pub phase: Phase,
    /// Consecutive failed attempts so far.
    pub failures: u32,
    /// The delay that the next failure will ask for.
    pub next_backoff_ms: u64,
}

impl RetryPolicy {
    /// 500 ms doubling up to 5 s, at most ten attempts.
    pub fn standard() -> (r: RetryPolicy)
        ensures
            r.initial_backoff_ms == 500,
            r.max_backoff_ms == 5000,
            r.max_attempts == 10,
    {
        RetryPolicy { initial_backoff_ms: 500, max_backoff_ms: 5000, max_attempts: 10 }
    }
}

impl Supervisor {
    pub open spec fn wf(&self) -> bool {
        &&& self.phase == Phase::Connecting ==> self.failures < self.policy.max_attempts
            || self.failures == 0
        &&& self.next_backoff_ms == backoff_for(self.policy, (self.failures + 1) as nat)
    }

    pub fn new(policy: RetryPolicy) -> (r: Supervisor)
        ensures
            r.wf(),
            r.policy == policy,
            r.phase == Phase::Connecting,
            r.failures == 0,
    {
        proof {
            vstd::arithmetic::power::lemma_pow0(2);
            assert(pow2(0) == 1);
            assert(policy.initial_backoff_ms * pow2(0) == policy.initial_backoff_ms);
        }
        let first = if policy.initial_backoff_ms <= policy.max_backoff_ms {
            policy.initial_backoff_ms
        } else {
            policy.max_backoff_ms
        };
        Supervisor { policy, phase: Phase::Connecting, failures: 0, next_backoff_ms: first }
    }

    /// Reports the outcome of the attempt just made and returns what to do next.
    ///
    /// Once the supervisor is ready or has given up it stays so, and answers
    /// every further report with the same terminal step.
    pub fn on_outcome(&mut self, succeeded: bool) -> (step: Step)
        requires
            old(self).wf(),
        ensures
            final(self).wf(),
            final(self).policy == old(self).policy,
            old(self).phase == Phase::Ready ==> step == Step::Ready && *final(self) == *old(self),
            old(self).phase == Phase::Failed ==> step == Step::GiveUp && *final(self)
                == *old(self),
            old(self).phase == Phase::Connecting && succeeded ==> step == Step::Ready
                && final(self).phase == Phase::Ready && final(self).failures == old(self).failures,
            old(self).phase == Phase::Connecting && !succeeded ==> {
                &&& step == failure_step(old(self).policy, (old(self).failures + 1) as nat)
                &&& final(self).failures == old(self).failures + 1
                &&& final(self).phase == (if step == Step::GiveUp {
                    Phase::Failed
                } else {
                    Phase::Connecting
                })
            },
    {
        match self.phase {
            Phase::Ready => Step::Ready,
            Phase::Failed => Step::GiveUp,
            Phase::Connecting => {
                if succeeded {
                    self.phase = Phase::Ready;
                    Step::Ready
                } else {
                    let ghost k = (self.failures + 1) as nat;
                    let delay = self.next_backoff_ms;
                    let cap = self.policy.max_backoff_ms;
                    self.failures = self.failures + 1;
                    if self.failures >= self.policy.max_attempts {
                        self.phase = Phase::Failed;
                        proof {
                            lemma_backoff_step(self.policy, k);
                        }
                        self.next_backoff_ms = if delay > cap / 2 { cap } else { delay * 2 };
                        Step::GiveUp
                    } else {
                        proof {
                            lemma_backoff_step(self.policy, k);
                        }
                        self.next_backoff_ms = if delay > cap / 2 { cap } else { delay * 2 };
                        Step::Retry { delay_ms: delay, attempt: self.failures + 1 }
                    }
                }
            },
        }
    }
}

/// One doubling: the delay after failure `k + 1` is the delay after failure
/// `k` doubled, capped.
proof fn lemma_backoff_step(policy: RetryPolicy, k: nat)
    requires
        k >= 1,
    ensures
        backoff_for(policy, k + 1) == min_int(2 * backoff_for(policy, k), policy.max_backoff_ms as int),
        0 <= backoff_for(policy, k) <= policy.max_backoff_ms,
{
    lemma_pow2_unfold(k);
    lemma_pow2_pos((k - 1) as nat);
    let a = policy.initial_backoff_ms * pow2((k - 1) as nat);
    assert(policy.initial_backoff_ms * pow2(k) == 2 * a) by (nonlinear_arith)
        requires
            pow2(k) == 2 * pow2((k - 1) as nat),
            a == policy.initial_backoff_ms * pow2((k - 1) as nat),
    ;
    assert(a >= 0) by (nonlinear_arith)
        requires
            a == policy.initial_backoff_ms * pow2((k - 1) as nat),
    ;
}

/// The backoff never shrinks from one failure to the next and never exceeds
/// the cap.
pub proof fn lemma_backoff_monotone(policy: RetryPolicy, j: nat, k: nat)
    requires
        1 <= j <= k,
    ensures
        backoff_for(policy, j) <= backoff_for(policy, k),
        backoff_for(policy, k) <= policy.max_backoff_ms,
    decreases k - j,
{
    lemma_backoff_step(policy, k);
    if j < k {
        lemma_backoff_monotone(policy, j, (k - 1) as nat);
        lemma_backoff_step(policy, (k - 1) as nat);
    }
}

} // verus!

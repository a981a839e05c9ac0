//! Bounded retries with exponential backoff, shared by the metadata fetch
//! and by each chunk of a ranged download. The caller performs each attempt
//! and each wait; the policy decides what comes next.
use vstd::prelude::*;

verus! {

/// `2^n`.
pub open spec fn pow2(n: nat) -> nat
    decreases n,
{
    if n == 0 {
        1
    } else {
        2 * pow2((n - 1) as nat)
    }
}

/// What to do after an attempt.
#[derive(Clone, Copy, Debug, PartialEq, Eq, Structural)]
pub enum RetryAction {
    /// The attempt succeeded: stop with its value.
    Done,
    /// The attempt failed: wait this many milliseconds, then try again.
    Wait(u64),
    /// The attempt failed and no attempt is left: stop with its error.
    GiveUp,
}

/// At most `max_attempts` attempts; the wait after failed attempt `n`
/// (counting from 1) is `initial_backoff_ms * 2^(n-1)`.
#[derive(Clone, Copy, Debug, PartialEq, Eq, Structural)]
pub struct RetryPolicy {
    pub max_attempts: u32,
    pub initial_backoff_ms: u64,
}

/// Attempts of the standard policy.
pub const MAX_ATTEMPTS: u32 = 3;

/// First wait of the standard policy, in milliseconds.
pub const INITIAL_BACKOFF_MS: u64 = 1000;

impl RetryPolicy {
    /// At least one attempt, and every wait fits in 64 bits.
    pub open spec fn wf(self) -> bool {
        &&& self.max_attempts >= 1
        &&& self.initial_backoff_ms * pow2((self.max_attempts - 1) as nat) <= u64::MAX
    }

    /// The wait after failed attempt `attempt`.
    pub open spec fn backoff(self, attempt: nat) -> nat {
        (self.initial_backoff_ms * pow2((attempt - 1) as nat)) as nat
    }

    /// The action after attempt `attempt` ended as `succeeded` says.
    pub open spec fn action(self, attempt: nat, succeeded: bool) -> RetryAction {
        if succeeded {
            RetryAction::Done
        } else if attempt >= self.max_attempts {
            RetryAction::GiveUp
        } else {
            RetryAction::Wait(self.backoff(attempt) as u64)
        }
    }

    /// The actions taken when successive attempts, from attempt `attempt`
    /// on, end as `outcomes` says; the run stops at the first action that
    /// is not a wait.
    pub open spec fn run(self, outcomes: Seq<bool>, attempt: nat) -> Seq<RetryAction>
        decreases outcomes.len(),
    {
        if outcomes.len() == 0 {
            Seq::empty()
        } else {
            let a = self.action(attempt, outcomes[0]);
            if a is Wait {
                seq![a] + self.run(outcomes.drop_first(), attempt + 1)
            } else {
                seq![a]
            }
        }
    }

    /// Three attempts, waiting 1000 ms and then 2000 ms.
    pub fn standard() -> (r: RetryPolicy)
        ensures
            r.max_attempts == 3,
            r.initial_backoff_ms == 1000,
            r.wf(),
    {
        proof {
            reveal_with_fuel(pow2, 3);
        }
        RetryPolicy { max_attempts: MAX_ATTEMPTS, initial_backoff_ms: INITIAL_BACKOFF_MS }
    }

    /// The action after attempt `attempt` (counting from 1).
    pub fn next_action(&self, attempt: u32, succeeded: bool) -> (r: RetryAction)
        requires
            self.wf(),
            1 <= attempt,
        ensures
            r == self.action(attempt as nat, succeeded),
    {
        if succeeded {
            return RetryAction::Done;
        }
        if attempt >= self.max_attempts {
            return RetryAction::GiveUp;
        }
        let mut w: u64 = self.initial_backoff_ms;
        let mut i: u32 = 1;
        assert(pow2(0) == 1);
        assert(self.initial_backoff_ms * pow2(0) == self.initial_backoff_ms) by (nonlinear_arith)
            requires
                pow2(0) == 1,
        ;
        while i < attempt
            invariant
                self.wf(),
                1 <= i <= attempt < self.max_attempts,
                w as nat == self.backoff(i as nat),
            decreases attempt - i,
        {
            proof {
                lemma_pow2_monotonic(i as nat, (self.max_attempts - 1) as nat);
                assert(self.initial_backoff_ms * pow2(i as nat) <= self.initial_backoff_ms * pow2(
                    (self.max_attempts - 1) as nat,
                )) by (nonlinear_arith)
                    requires
                        pow2(i as nat) <= pow2((self.max_attempts - 1) as nat),
                ;
                assert(pow2(i as nat) == 2 * pow2((i - 1) as nat));
                assert(self.initial_backoff_ms * pow2(i as nat) == 2 * (self.initial_backoff_ms
                    * pow2((i - 1) as nat))) by (nonlinear_arith)
                    requires
                        pow2(i as nat) == 2 * pow2((i - 1) as nat),
                ;
            }
            w = w * 2;
            i = i + 1;
        }
        RetryAction::Wait(w)
    }
}

proof fn lemma_pow2_monotonic(a: nat, b: nat)
    requires
        a <= b,
    ensures
        pow2(a) <= pow2(b),
    decreases b,
{
    if a < b {
        lemma_pow2_monotonic(a, (b - 1) as nat);
    }
}

/// A run never makes more attempts than the policy allows, and it ends
/// with a wait only where the outcomes ran out.
pub proof fn lemma_run_bounded(p: RetryPolicy, outcomes: Seq<bool>, attempt: nat)
    requires
        p.wf(),
        1 <= attempt,
    ensures
        attempt <= p.max_attempts ==> p.run(outcomes, attempt).len() <= p.max_attempts + 1 - attempt,
        forall|i: int|
            0 <= i < p.run(outcomes, attempt).len() ==> (#[trigger] p.run(outcomes, attempt)[i]
                matches RetryAction::Wait(w) ==> w == p.backoff((attempt + i) as nat)),
    decreases outcomes.len(),
{
    if outcomes.len() > 0 {
        lemma_run_bounded(p, outcomes.drop_first(), attempt + 1);
        let a = p.action(attempt, outcomes[0]);
        if a is Wait {
            lemma_pow2_monotonic((attempt - 1) as nat, (p.max_attempts - 1) as nat);
            assert(p.initial_backoff_ms * pow2((attempt - 1) as nat) <= p.initial_backoff_ms * pow2(
                (p.max_attempts - 1) as nat,
            )) by (nonlinear_arith)
                requires
                    pow2((attempt - 1) as nat) <= pow2((p.max_attempts - 1) as nat),
            ;
            let r = p.run(outcomes, attempt);
            assert forall|i: int| 0 < i < r.len() implies (#[trigger] r[i] matches RetryAction::Wait(
                w,
            ) ==> w == p.backoff((attempt + i) as nat)) by {
                assert(r[i] == p.run(outcomes.drop_first(), attempt + 1)[i - 1]);
            }
        }
    }
}

/// With the standard policy, attempts that fail twice and then succeed
/// wait 1000 ms and 2000 ms and end with the success; attempts that keep
/// failing wait 1000 ms and 2000 ms and give up after the third.
pub proof fn lemma_standard_schedule(outcomes: Seq<bool>)
    requires
        outcomes.len() >= 3,
        !outcomes[0],
        !outcomes[1],
    ensures
        ({
            let p = RetryPolicy { max_attempts: 3, initial_backoff_ms: 1000 };
            p.run(outcomes, 1) == if outcomes[2] {
                seq![RetryAction::Wait(1000), RetryAction::Wait(2000), RetryAction::Done]
            } else {
                seq![RetryAction::Wait(1000), RetryAction::Wait(2000), RetryAction::GiveUp]
            }
        }),
{
    let p = RetryPolicy { max_attempts: 3, initial_backoff_ms: 1000 };
    reveal_with_fuel(pow2, 3);
    let o1 = outcomes.drop_first();
    let o2 = o1.drop_first();
    assert(o1[0] == outcomes[1]);
    assert(o2[0] == outcomes[2]);
    assert(p.run(o2, 3) == seq![p.action(3, outcomes[2])]);
    assert(p.run(o1, 2) == seq![RetryAction::Wait(2000)] + p.run(o2, 3));
    assert(p.run(outcomes, 1) == seq![RetryAction::Wait(1000)] + p.run(o1, 2));
    assert(p.run(outcomes, 1) =~= if outcomes[2] {
        seq![RetryAction::Wait(1000), RetryAction::Wait(2000), RetryAction::Done]
    } else {
        seq![RetryAction::Wait(1000), RetryAction::Wait(2000), RetryAction::GiveUp]
    });
}

} // verus!

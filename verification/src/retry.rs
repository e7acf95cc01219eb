//! Retry scheduling with exponential backoff under an elapsed-time budget.
//!
//! The fetcher retries transient failures. How long to wait and when to give
//! up is a pure decision: from the attempt outcomes so far, the accumulated
//! elapsed time, and the configured ceiling, the schedule either names the
//! successful attempt or gives up once the budget is exhausted. The driver
//! here is independent of any transport: the caller performs the attempts
//! and supplies their outcomes.

use vstd::prelude::*;

verus! {

/// Delays grow by half each failure, clamped to `max_interval_ms`; the run
/// gives up once the accumulated delay exceeds `ceiling_ms`.
pub struct RetryPolicy {
    pub initial_interval_ms: u64,
    pub max_interval_ms: u64,
    pub ceiling_ms: u64,
}

/// Bounds under which the schedule's arithmetic cannot overflow.
pub open spec fn policy_wf(p: RetryPolicy) -> bool {
    &&& p.initial_interval_ms <= 0x100_0000_0000u64
    &&& p.max_interval_ms <= 0x100_0000_0000u64
    &&& p.ceiling_ms <= 0x100_0000_0000u64
}

/// The delay that follows a failed attempt: the current delay grown by
/// half, clamped to the policy's maximum.
pub open spec fn next_interval_spec(interval: int, p: RetryPolicy) -> int {
    if interval * 3 / 2 > p.max_interval_ms {
        p.max_interval_ms as int
    } else {
        interval * 3 / 2
    }
}

/// The delay before attempt `m + 1`, counting from attempt 0.
pub open spec fn interval_at(p: RetryPolicy, m: nat) -> int
    decreases m,
{
    if m == 0 {
        p.initial_interval_ms as int
    } else {
        next_interval_spec(interval_at(p, (m - 1) as nat), p)
    }
}

/// The delay accumulated once the first `m` attempts have failed.
pub open spec fn elapsed_after(p: RetryPolicy, m: nat) -> int
    decreases m,
{
    if m == 0 {
        0
    } else {
        elapsed_after(p, (m - 1) as nat) + interval_at(p, (m - 1) as nat)
    }
}

/// The schedule, driven from attempt `i` with `elapsed` delay accumulated
/// and `interval` the delay a failure of attempt `i` would cost. Returns
/// which attempt succeeded, if any, and how many attempts were made: a
/// success ends the run at once; a failure adds `interval` to the elapsed
/// delay and the run gives up as soon as that exceeds the ceiling.
pub open spec fn retry_run(
    outcomes: Seq<bool>,
    i: int,
    elapsed: int,
    interval: int,
    p: RetryPolicy,
) -> (Option<int>, int)
    decreases outcomes.len() - i,
{
    if i < 0 || i >= outcomes.len() {
        (None::<int>, i)
    } else if outcomes[i] {
        (Some(i), i + 1)
    } else if elapsed + interval > p.ceiling_ms {
        (None::<int>, i + 1)
    } else {
        retry_run(outcomes, i + 1, elapsed + interval, next_interval_spec(interval, p), p)
    }
}

/// What a run of attempts with the given outcomes yields under policy `p`.
pub open spec fn retry_result(outcomes: Seq<bool>, p: RetryPolicy) -> (Option<int>, int) {
    retry_run(outcomes, 0, 0, p.initial_interval_ms as int, p)
}

impl RetryPolicy {
    /// The fetcher's policy for one request budget: an initial half-second
    /// delay, growth by half per failure up to a minute, and the budget
    /// itself as the give-up ceiling.
    pub fn for_budget(ceiling_ms: u64) -> (r: Self)
        requires
            ceiling_ms <= 0x100_0000_0000u64,
        ensures
            policy_wf(r),
            r.initial_interval_ms == 500,
            r.max_interval_ms == 60000,
            r.ceiling_ms == ceiling_ms,
    {
        RetryPolicy { initial_interval_ms: 500, max_interval_ms: 60000, ceiling_ms }
    }

    /// Drive the schedule over recorded attempt outcomes: `true` marks a
    /// successful attempt. Returns the index of the successful attempt, if
    /// one was reached within the budget, and the number of attempts made.
    pub fn run_retry(&self, outcomes: &Vec<bool>) -> (r: (Option<usize>, usize))
        requires
            policy_wf(*self),
        ensures
            r.0 is Some <==> retry_result(outcomes@, *self).0 is Some,
            r.0 is Some ==> retry_result(outcomes@, *self).0 == Some(r.0->0 as int),
            r.1 == retry_result(outcomes@, *self).1,
    {
        let n = outcomes.len();
        let mut i: usize = 0;
        let mut elapsed: u64 = 0;
        let mut interval: u64 = self.initial_interval_ms;
        while i < n
            invariant
                policy_wf(*self),
                n == outcomes@.len(),
                i <= n,
                elapsed <= self.ceiling_ms,
                interval <= 0x100_0000_0000u64,
                retry_result(outcomes@, *self) == retry_run(
                    outcomes@,
                    i as int,
                    elapsed as int,
                    interval as int,
                    *self,
                ),
            decreases n - i,
        {
            if outcomes[i] {
                return (Some(i), i + 1);
            }
            let e2 = elapsed + interval;
            if e2 > self.ceiling_ms {
                return (None, i + 1);
            }
            elapsed = e2;
            interval = {
                let grown = interval * 3 / 2;
                if grown > self.max_interval_ms {
                    self.max_interval_ms
                } else {
                    grown
                }
            };
            i = i + 1;
        }
        (None, n)
    }
}

/// Every delay the policy schedules is nonnegative.
proof fn lemma_interval_nonneg(p: RetryPolicy, m: nat)
    requires
        policy_wf(p),
    ensures
        0 <= interval_at(p, m),
    decreases m,
{
    if m > 0 {
        lemma_interval_nonneg(p, (m - 1) as nat);
    }
}

/// Accumulated delay never shrinks as attempts fail.
proof fn lemma_elapsed_mono(p: RetryPolicy, a: nat, b: nat)
    requires
        policy_wf(p),
        a <= b,
    ensures
        elapsed_after(p, a) <= elapsed_after(p, b),
    decreases b,
{
    if a < b {
        lemma_elapsed_mono(p, a, (b - 1) as nat);
        lemma_interval_nonneg(p, (b - 1) as nat);
    }
}

/// From attempt `i`, with every attempt up to `k - 1` failing, attempt
/// `k - 1` succeeding, and the delay accumulated by then within the
/// ceiling, the schedule reaches and returns the successful attempt.
proof fn lemma_run_reaches(outcomes: Seq<bool>, i: int, k: int, p: RetryPolicy)
    requires
        policy_wf(p),
        0 <= i <= k - 1 < outcomes.len(),
        forall|j: int| i <= j < k - 1 ==> !outcomes[j],
        outcomes[k - 1],
        elapsed_after(p, (k - 1) as nat) <= p.ceiling_ms,
    ensures
        retry_run(outcomes, i, elapsed_after(p, i as nat), interval_at(p, i as nat), p).0 == Some(
            k - 1,
        ),
    decreases k - i,
{
    if i == k - 1 {
    } else {
        assert(!outcomes[i]);
        assert(elapsed_after(p, i as nat) + interval_at(p, i as nat) == elapsed_after(
            p,
            (i + 1) as nat,
        ));
        lemma_elapsed_mono(p, (i + 1) as nat, (k - 1) as nat);
        lemma_run_reaches(outcomes, i + 1, k, p);
    }
}

/// A fetcher that fails its first `k - 1` attempts and succeeds on the
/// `k`-th succeeds overall, provided the backoff delay accumulated over
/// those failures stays within the budget ceiling.
pub proof fn lemma_retry_first_success(outcomes: Seq<bool>, k: int, p: RetryPolicy)
    requires
        policy_wf(p),
        1 <= k <= outcomes.len(),
        forall|j: int| 0 <= j < k - 1 ==> !outcomes[j],
        outcomes[k - 1],
        elapsed_after(p, (k - 1) as nat) <= p.ceiling_ms,
    ensures
        retry_result(outcomes, p).0 == Some(k - 1),
{
    lemma_run_reaches(outcomes, 0, k, p);
}

/// From attempt `i`, reached with its accumulated delay within the
/// ceiling, a run whose every attempt fails returns no success, makes at
/// least one more attempt, begins every attempt within the ceiling, and
/// stops early only because the very next delay would exceed it.
proof fn lemma_run_exhausts(outcomes: Seq<bool>, i: int, p: RetryPolicy)
    requires
        policy_wf(p),
        0 <= i < outcomes.len(),
        forall|j: int| i <= j < outcomes.len() ==> !outcomes[j],
        elapsed_after(p, i as nat) <= p.ceiling_ms,
    ensures
        ({
            let r = retry_run(outcomes, i, elapsed_after(p, i as nat), interval_at(p, i as nat), p);
            &&& r.0 is None
            &&& i < r.1 <= outcomes.len()
            &&& elapsed_after(p, (r.1 - 1) as nat) <= p.ceiling_ms
            &&& r.1 < outcomes.len() ==> elapsed_after(p, r.1 as nat) > p.ceiling_ms
        }),
    decreases outcomes.len() - i,
{
    assert(!outcomes[i]);
    assert(elapsed_after(p, i as nat) + interval_at(p, i as nat) == elapsed_after(
        p,
        (i + 1) as nat,
    ));
    if elapsed_after(p, (i + 1) as nat) > p.ceiling_ms {
    } else if i + 1 < outcomes.len() {
        lemma_run_exhausts(outcomes, i + 1, p);
    }
}

/// A fetcher that always fails yields no success; the schedule makes its
/// attempts while the accumulated delay is within the ceiling and makes
/// none after the ceiling is exceeded.
pub proof fn lemma_retry_exhaustion(outcomes: Seq<bool>, p: RetryPolicy)
    requires
        policy_wf(p),
        outcomes.len() >= 1,
        forall|j: int| 0 <= j < outcomes.len() ==> !outcomes[j],
    ensures
        ({
            let r = retry_result(outcomes, p);
            &&& r.0 is None
            &&& 1 <= r.1 <= outcomes.len()
            &&& elapsed_after(p, (r.1 - 1) as nat) <= p.ceiling_ms
            &&& r.1 < outcomes.len() ==> elapsed_after(p, r.1 as nat) > p.ceiling_ms
        }),
{
    lemma_run_exhausts(outcomes, 0, p);
}

} // verus!

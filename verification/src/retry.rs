//! The retry policy: bounded attempts with exponential backoff. An attempt
//! that fails on the network or with a server error (5xx) is retried; any
//! other outcome — success, or a client status — ends the run at once.
//! The driver loop that performs the network call and the sleep lives with
//! the caller; the classification, the delays, and the shape of the whole
//! schedule are verified here.

use vstd::prelude::*;

verus! {

/// The retry schedule: at most `max_attempts` calls, with a sleep of
/// `initial_delay_ms * multiplier^(k-1)` milliseconds after the `k`-th
/// failed retryable attempt.
pub struct RetryPolicy {
    pub max_attempts: u32,
    pub initial_delay_ms: u64,
    pub multiplier: u64,
}

impl RetryPolicy {
    /// A policy usable as a schedule: at least one attempt, and a
    /// multiplier that never shrinks a delay.
    pub open spec fn wf(&self) -> bool {
        self.max_attempts >= 1 && self.multiplier >= 1
    }
}

impl Default for RetryPolicy {
    /// The standard schedule: three attempts with delays of 100 and 200
    /// milliseconds between them.
    fn default() -> (r: Self)
        ensures
            r.max_attempts == 3,
            r.initial_delay_ms == 100,
            r.multiplier == 2,
            r.wf(),
    {
        RetryPolicy { max_attempts: 3, initial_delay_ms: 100, multiplier: 2 }
    }
}

/// What one attempt of the wrapped operation produced.
pub enum AttemptOutcome {
    /// The call went through and needs no retry.
    Success,
    /// No HTTP response came back at all.
    NetworkError,
    /// An HTTP response with this status came back.
    HttpStatus(u16),
}

/// Whether an outcome is transient: a network failure or a server error
/// is retried; success and every other status are passed through.
pub open spec fn spec_retryable(o: AttemptOutcome) -> bool {
    match o {
        AttemptOutcome::Success => false,
        AttemptOutcome::NetworkError => true,
        AttemptOutcome::HttpStatus(st) => 500 <= st <= 599,
    }
}

/// Classifies an outcome as transient or final.
pub fn is_retryable(o: &AttemptOutcome) -> (r: bool)
    ensures
        r == spec_retryable(*o),
{
    match o {
        AttemptOutcome::Success => false,
        AttemptOutcome::NetworkError => true,
        AttemptOutcome::HttpStatus(st) => 500 <= *st && *st <= 599,
    }
}

/// The sleep that follows the `k`-th attempt (counting from one).
pub open spec fn spec_delay(p: RetryPolicy, k: nat) -> nat
    decreases k,
{
    if k <= 1 {
        p.initial_delay_ms as nat
    } else {
        spec_delay(p, (k - 1) as nat) * p.multiplier as nat
    }
}

/// The number of calls a driver makes, starting at attempt `k`, when the
/// attempt at index `j` (zero-based) would produce a retryable outcome
/// exactly when `outcomes[j]` holds.
pub open spec fn spec_calls(p: RetryPolicy, outcomes: Seq<bool>, k: nat) -> nat
    decreases p.max_attempts as nat - k
        when 1 <= k <= p.max_attempts
{
    if k >= p.max_attempts as nat {
        1
    } else if k - 1 < outcomes.len() && outcomes[k as int - 1] {
        1 + spec_calls(p, outcomes, k + 1)
    } else {
        1
    }
}

/// The total sleep of that driver, in milliseconds.
pub open spec fn spec_sleep(p: RetryPolicy, outcomes: Seq<bool>, k: nat) -> nat
    decreases p.max_attempts as nat - k
        when 1 <= k <= p.max_attempts
{
    if k >= p.max_attempts as nat {
        0
    } else if k - 1 < outcomes.len() && outcomes[k as int - 1] {
        spec_delay(p, k) + spec_sleep(p, outcomes, k + 1)
    } else {
        0
    }
}

/// The sleep of a run in which every attempt fails with a retryable
/// outcome: the sum of the delays after attempts `k` through
/// `max_attempts - 1`.
pub open spec fn spec_sleep_exhausted(p: RetryPolicy, k: nat) -> nat
    decreases p.max_attempts as nat - k
        when 1 <= k <= p.max_attempts
{
    if k >= p.max_attempts as nat {
        0
    } else {
        spec_delay(p, k) + spec_sleep_exhausted(p, k + 1)
    }
}

/// Retry bound: against an operation that always produces a retryable
/// outcome (for instance, one that always fails on the network), the
/// policy invokes the operation exactly `max_attempts` times, and the
/// total sleep is the sum of the delay after each attempt but the last.
pub proof fn lemma_retry_exhaustion(p: RetryPolicy, outcomes: Seq<bool>)
    requires
        p.wf(),
        outcomes.len() >= p.max_attempts,
        forall|j: int| 0 <= j < outcomes.len() ==> outcomes[j],
    ensures
        spec_calls(p, outcomes, 1) == p.max_attempts,
        spec_sleep(p, outcomes, 1) == spec_sleep_exhausted(p, 1),
{
    lemma_retry_exhaustion_from(p, outcomes, 1);
}

proof fn lemma_retry_exhaustion_from(p: RetryPolicy, outcomes: Seq<bool>, k: nat)
    requires
        p.wf(),
        1 <= k <= p.max_attempts,
        outcomes.len() >= p.max_attempts,
        forall|j: int| 0 <= j < outcomes.len() ==> outcomes[j],
    ensures
        spec_calls(p, outcomes, k) == p.max_attempts - k + 1,
        spec_sleep(p, outcomes, k) == spec_sleep_exhausted(p, k),
    decreases p.max_attempts as nat - k,
{
    if k < p.max_attempts as nat {
        assert(outcomes[k as int - 1]);
        lemma_retry_exhaustion_from(p, outcomes, k + 1);
    }
}

/// No retry on a final outcome: when the first attempt produces a
/// non-retryable outcome — any 4xx such as a validation failure, or a
/// success — the operation is invoked exactly once and nothing sleeps.
pub proof fn lemma_no_retry_on_terminal(p: RetryPolicy, outcomes: Seq<bool>, o: AttemptOutcome)
    requires
        p.wf(),
        outcomes.len() >= 1,
        outcomes[0] == spec_retryable(o),
        !spec_retryable(o),
    ensures
        spec_calls(p, outcomes, 1) == 1,
        spec_sleep(p, outcomes, 1) == 0,
{
}

/// A POST answered with a validation status (422) is final, never retried.
pub proof fn lemma_status_422_terminal()
    ensures
        !spec_retryable(AttemptOutcome::HttpStatus(422)),
{
}

/// The standard schedule in numbers: delays of 100 ms and 200 ms, and
/// 300 ms of sleep in all when every attempt fails.
pub proof fn lemma_default_schedule(p: RetryPolicy)
    requires
        p.max_attempts == 3,
        p.initial_delay_ms == 100,
        p.multiplier == 2,
    ensures
        spec_delay(p, 1) == 100,
        spec_delay(p, 2) == 200,
        spec_sleep_exhausted(p, 1) == 300,
{
    assert(spec_delay(p, 1) == 100);
    assert(spec_delay(p, 2) == 200);
    assert(spec_sleep_exhausted(p, 3) == 0);
    assert(spec_sleep_exhausted(p, 2) == 200);
    assert(spec_sleep_exhausted(p, 1) == 300);
}

/// What the driver does after one attempt.
pub enum RetryDecision {
    /// Stop: either the outcome is final or the attempts are used up.
    Finish,
    /// Sleep this many milliseconds, then try again.
    SleepThenRetry(u64),
}

impl RetryPolicy {
    /// The delay after attempt `attempt`, saturating at the largest
    /// representable value (the standard schedule never saturates).
    pub fn delay_for_attempt(&self, attempt: u32) -> (r: u64)
        requires
            self.wf(),
            attempt >= 1,
        ensures
            spec_delay(*self, attempt as nat) <= u64::MAX as nat ==> r as nat == spec_delay(
                *self,
                attempt as nat,
            ),
            spec_delay(*self, attempt as nat) > u64::MAX as nat ==> r == u64::MAX,
    {
        let m = self.multiplier;
        let mut d: u64 = self.initial_delay_ms;
        let mut i: u32 = 1;
        while i < attempt
            invariant
                self.wf(),
                m == self.multiplier,
                1 <= i <= attempt,
                spec_delay(*self, i as nat) <= u64::MAX as nat ==> d as nat == spec_delay(
                    *self,
                    i as nat,
                ),
                spec_delay(*self, i as nat) > u64::MAX as nat ==> d == u64::MAX,
            decreases attempt - i,
        {
            let ghost cur = spec_delay(*self, i as nat);
            let ghost nxt = spec_delay(*self, (i + 1) as nat);
            let q = u64::MAX / m;
            proof {
                assert(nxt == cur * m as nat);
                assert((q as nat) * (m as nat) + ((u64::MAX as nat) % (m as nat)) == (
                u64::MAX as nat)) by (nonlinear_arith)
                    requires
                        m >= 1,
                        (q as nat) == (u64::MAX as nat) / (m as nat),
                ;
                assert(((u64::MAX as nat) % (m as nat)) < (m as nat)) by (nonlinear_arith)
                    requires
                        m >= 1,
                ;
            }
            if d <= q {
                proof {
                    assert((d as nat) * (m as nat) <= (u64::MAX as nat)) by (nonlinear_arith)
                        requires
                            (d as nat) <= (q as nat),
                            (q as nat) * (m as nat) + ((u64::MAX as nat) % (m as nat)) == (
                            u64::MAX as nat),
                    ;
                    if cur > u64::MAX as nat {
                        assert(d == u64::MAX);
                        assert(q == u64::MAX);
                        assert(m == 1) by (nonlinear_arith)
                            requires
                                (q as nat) == (u64::MAX as nat),
                                (q as nat) * (m as nat) <= (u64::MAX as nat),
                                m >= 1,
                                (u64::MAX as nat) > 0,
                        ;
                        assert(nxt == cur) by (nonlinear_arith)
                            requires
                                m == 1,
                                nxt == cur * (m as nat),
                        ;
                    }
                }
                d = d * m;
            } else {
                proof {
                    if cur <= u64::MAX as nat {
                        assert(nxt > u64::MAX as nat) by (nonlinear_arith)
                            requires
                                cur == d as nat,
                                (d as nat) > (q as nat),
                                (q as nat) * (m as nat) + ((u64::MAX as nat) % (m as nat)) == (
                                u64::MAX as nat),
                                ((u64::MAX as nat) % (m as nat)) < (m as nat),
                                nxt == cur * (m as nat),
                                m >= 1,
                        ;
                    } else {
                        assert(nxt >= cur) by (nonlinear_arith)
                            requires
                                m >= 1,
                                nxt == cur * (m as nat),
                        ;
                    }
                }
                d = u64::MAX;
            }
            i = i + 1;
        }
        d
    }

    /// Decides what follows one attempt: retry with the scheduled delay
    /// while the outcome is transient and attempts remain, else stop.
    pub fn decide(&self, attempt: u32, outcome: &AttemptOutcome) -> (r: RetryDecision)
        requires
            self.wf(),
            attempt >= 1,
        ensures
            (attempt >= self.max_attempts || !spec_retryable(*outcome)) <==> r is Finish,
            r matches RetryDecision::SleepThenRetry(d) ==> (spec_delay(*self, attempt as nat)
                <= u64::MAX as nat ==> d as nat == spec_delay(*self, attempt as nat)),
    {
        if attempt >= self.max_attempts || !is_retryable(outcome) {
            RetryDecision::Finish
        } else {
            RetryDecision::SleepThenRetry(self.delay_for_attempt(attempt))
        }
    }
}

} // verus!

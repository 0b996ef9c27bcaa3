//! Retrying a request: which responses are retried, how long to wait before
//! the next attempt, and when to give up.
//!
//! Durations are counted in nanoseconds (`u128`), the unit in which
//! `std::time::Duration` is exact; the largest value is that of `Duration::MAX`.
use vstd::prelude::*;

verus! {

/// The number of nanoseconds in `Duration::MAX` (`u64::MAX` seconds and 999_999_999 ns).
pub const DURATION_MAX_NANOS: u128 = 18446744073709551615999999999u128;

/// One second, in nanoseconds.
pub const NANOS_PER_SEC: u128 = 1000000000u128;

/// One millisecond, in nanoseconds.
pub const NANOS_PER_MILLI: u128 = 1000000u128;

/// `2^e`.
pub open spec fn pow2(e: nat) -> nat
    decreases e,
{
    if e == 0 {
        1
    } else {
        2 * pow2((e - 1) as nat)
    }
}

/// `2u32.saturating_pow(e)`: `2^e`, or `u32::MAX` when that does not fit.
pub open spec fn sat_pow2_u32(e: nat) -> nat {
    if pow2(e) > u32::MAX {
        u32::MAX as nat
    } else {
        pow2(e)
    }
}

/// `Duration::saturating_mul`: `d * k`, or `Duration::MAX` when that overflows.
pub open spec fn sat_mul_duration(d: nat, k: nat) -> nat {
    if d * k > DURATION_MAX_NANOS {
        DURATION_MAX_NANOS as nat
    } else {
        d * k
    }
}

pub proof fn lemma_pow2_monotonic(a: nat, b: nat)
    requires
        a <= b,
    ensures
        pow2(a) <= pow2(b),
        pow2(a) >= 1,
    decreases b,
{
    if a < b {
        lemma_pow2_monotonic(a, (b - 1) as nat);
    } else if b > 0 {
        lemma_pow2_monotonic(0, (b - 1) as nat);
    }
}

proof fn lemma_pow2_32()
    ensures
        pow2(32) == 4294967296,
{
    reveal_with_fuel(pow2, 33);
}

/// How long to wait between attempts.
#[derive(Clone, Copy, Debug, PartialEq, Eq)]
pub enum BackoffStrategy {
    /// The same wait after every attempt.
    Fixed(u128),
    /// `base * 2^(attempt - 1)`, never more than `max`.
    Exponential { base: u128, max: u128 },
}

impl BackoffStrategy {
    /// Every duration is one that `Duration` can hold.
    pub open spec fn well_formed(self) -> bool {
        match self {
            BackoffStrategy::Fixed(d) => d <= DURATION_MAX_NANOS,
            BackoffStrategy::Exponential { base, max } => base <= DURATION_MAX_NANOS && max
                <= DURATION_MAX_NANOS,
        }
    }

    /// Whether every duration is one that `Duration` can hold.
    pub fn is_well_formed(&self) -> (r: bool)
        ensures
            r == self.well_formed(),
    {
        match self {
            BackoffStrategy::Fixed(d) => *d <= DURATION_MAX_NANOS,
            BackoffStrategy::Exponential { base, max } => *base <= DURATION_MAX_NANOS && *max
                <= DURATION_MAX_NANOS,
        }
    }

    /// The wait after the `attempt`-th attempt.
    pub open spec fn spec_delay(self, attempt: nat) -> nat {
        match self {
            BackoffStrategy::Fixed(d) => d as nat,
            BackoffStrategy::Exponential { base, max } => {
                let d = sat_mul_duration(base as nat, sat_pow2_u32((attempt - 1) as nat));
                if d > max {
                    max as nat
                } else {
                    d
                }
            },
        }
    }

    /// The wait after the `attempt`-th attempt (attempts count from 1).
    pub fn delay(&self, attempt: u32) -> (d: u128)
        requires
            self.well_formed(),
            self is Exponential ==> attempt >= 1,
        ensures
            d == self.spec_delay(attempt as nat),
            d <= DURATION_MAX_NANOS,
    {
        match self {
            BackoffStrategy::Fixed(d) => *d,
            BackoffStrategy::Exponential { base, max } => {
                let factor = saturating_pow2(attempt - 1);
                let d = saturating_mul_duration(*base, factor);
                if d > *max {
                    *max
                } else {
                    d
                }
            },
        }
    }
}

/// `2u32.saturating_pow(e)`.
pub fn saturating_pow2(e: u32) -> (r: u32)
    ensures
        r == sat_pow2_u32(e as nat),
{
    if e >= 32 {
        proof {
            lemma_pow2_monotonic(32, e as nat);
            lemma_pow2_32();
        }
        return u32::MAX;
    }
    let mut p: u64 = 1;
    let mut i: u32 = 0;
    while i < e
        invariant
            i <= e < 32,
            p == pow2(i as nat),
            p <= 2147483648,
        decreases e - i,
    {
        proof {
            lemma_pow2_monotonic((i + 1) as nat, 31);
            reveal_with_fuel(pow2, 32);
            assert(pow2(31) == 2147483648) by {
                reveal_with_fuel(pow2, 32);
            }
        }
        p = p * 2;
        i = i + 1;
    }
    if p > u32::MAX as u64 {
        u32::MAX
    } else {
        p as u32
    }
}

/// `Duration::saturating_mul` on nanosecond counts.
pub fn saturating_mul_duration(d: u128, k: u32) -> (r: u128)
    requires
        d <= DURATION_MAX_NANOS,
    ensures
        r == sat_mul_duration(d as nat, k as nat),
        r <= DURATION_MAX_NANOS,
{
    if k == 0 {
        assert(d * 0 == 0) by (nonlinear_arith);
        return 0;
    }
    if d > DURATION_MAX_NANOS / (k as u128) {
        assert(d * k > DURATION_MAX_NANOS) by (nonlinear_arith)
            requires
                d > DURATION_MAX_NANOS / (k as u128),
                k > 0,
        ;
        DURATION_MAX_NANOS
    } else {
        assert(d * k <= DURATION_MAX_NANOS) by (nonlinear_arith)
            requires
                d <= DURATION_MAX_NANOS / (k as u128),
                k > 0,
        ;
        d * (k as u128)
    }
}

/// Whether a status is retried when no other set is configured:
/// 429, 500, 502, 503 and 504.
pub open spec fn spec_default_retryable(status: u16) -> bool {
    status == 429 || status == 500 || status == 502 || status == 503 || status == 504
}

/// Whether `status` is one that is retried by default.
pub fn default_retryable(status: u16) -> (r: bool)
    ensures
        r == spec_default_retryable(status),
{
    status == 429 || status == 500 || status == 502 || status == 503 || status == 504
}

/// The statuses retried by default, in ascending order.
pub fn default_retry_statuses() -> (v: Vec<u16>)
    ensures
        v@ == seq![429u16, 500u16, 502u16, 503u16, 504u16],
        forall|s: u16| v@.contains(s) <==> spec_default_retryable(s),
{
    let v = vec![429u16, 500u16, 502u16, 503u16, 504u16];
    assert forall|s: u16| v@.contains(s) <==> spec_default_retryable(s) by {
        if spec_default_retryable(s) {
            if s == 429 {
                assert(v@[0] == s);
            } else if s == 500 {
                assert(v@[1] == s);
            } else if s == 502 {
                assert(v@[2] == s);
            } else if s == 503 {
                assert(v@[3] == s);
            } else {
                assert(v@[4] == s);
            }
        }
    }
    v
}

/// What an attempt produced.
#[derive(Clone, Copy, Debug, PartialEq, Eq)]
pub enum AttemptOutcome {
    /// A response with this status arrived.
    Response(u16),
    /// The attempt failed before a response arrived.
    Failed,
}

/// What to do after an attempt.
#[derive(Clone, Copy, Debug, PartialEq, Eq)]
pub enum RetryDecision {
    /// Hand the outcome of the last attempt back to the caller.
    Finish,
    /// Wait this many nanoseconds, then attempt again.
    RetryAfter(u128),
}

/// A retry policy: how many attempts, which statuses are retried, and the backoff.
#[derive(Clone, Debug)]
pub struct Retry {
    max_attempts: u32,
    backoff: BackoffStrategy,
    retry_statuses: Vec<u16>,
}

impl Retry {
    pub closed spec fn spec_max_attempts(self) -> u32 {
        self.max_attempts
    }

    pub closed spec fn spec_backoff(self) -> BackoffStrategy {
        self.backoff
    }

    pub closed spec fn spec_retry_statuses(self) -> Seq<u16> {
        self.retry_statuses@
    }

    /// Whether a response with `status` is retried under this policy.
    pub open spec fn spec_is_retryable(self, status: u16) -> bool {
        self.spec_retry_statuses().contains(status)
    }

    /// A policy of at most `max_attempts` attempts, a fixed wait of 500 ms, and
    /// the default retried statuses.
    pub fn new(max_attempts: u32) -> (r: Self)
        ensures
            r.spec_max_attempts() == max_attempts,
            r.spec_backoff() == BackoffStrategy::Fixed(500000000u128),
            forall|s: u16| r.spec_is_retryable(s) <==> spec_default_retryable(s),
            r.spec_retry_statuses() == seq![429u16, 500u16, 502u16, 503u16, 504u16],
    {
        Retry {
            max_attempts,
            backoff: BackoffStrategy::Fixed(500 * NANOS_PER_MILLI),
            retry_statuses: default_retry_statuses(),
        }
    }

    /// The same policy with another backoff strategy.
    pub fn backoff(self, strategy: BackoffStrategy) -> (r: Self)
        ensures
            r.spec_max_attempts() == self.spec_max_attempts(),
            r.spec_backoff() == strategy,
            r.spec_retry_statuses() == self.spec_retry_statuses(),
    {
        Retry { backoff: strategy, ..self }
    }

    /// The same policy, retrying exactly the given statuses.
    pub fn retryable(self, statuses: Vec<u16>) -> (r: Self)
        ensures
            r.spec_max_attempts() == self.spec_max_attempts(),
            r.spec_backoff() == self.spec_backoff(),
            r.spec_retry_statuses() == statuses@,
    {
        Retry { retry_statuses: statuses, ..self }
    }

    /// The largest number of attempts.
    pub fn max_attempts(&self) -> (n: u32)
        ensures
            n == self.spec_max_attempts(),
    {
        self.max_attempts
    }

    /// The backoff strategy.
    pub fn backoff_strategy(&self) -> (b: &BackoffStrategy)
        ensures
            *b == self.spec_backoff(),
    {
        &self.backoff
    }

    /// Whether a response with `status` is retried under this policy.
    pub fn is_retryable(&self, status: u16) -> (r: bool)
        ensures
            r == self.spec_is_retryable(status),
    {
        let mut i: usize = 0;
        while i < self.retry_statuses.len()
            invariant
                i <= self.retry_statuses@.len(),
                forall|j: int| 0 <= j < i ==> self.retry_statuses@[j] != status,
            decreases self.retry_statuses.len() - i,
        {
            if self.retry_statuses[i] == status {
                assert(self.retry_statuses@[i as int] == status);
                return true;
            }
            i += 1;
        }
        false
    }

    /// The decision after `attempts` attempts, the last of which gave `outcome`.
    pub open spec fn spec_after_attempt(self, attempts: nat, outcome: AttemptOutcome) -> RetryDecision {
        let give_up = match outcome {
            AttemptOutcome::Response(status) => !self.spec_is_retryable(status) || attempts
                >= self.spec_max_attempts(),
            AttemptOutcome::Failed => attempts >= self.spec_max_attempts(),
        };
        if give_up {
            RetryDecision::Finish
        } else {
            RetryDecision::RetryAfter(self.spec_backoff().spec_delay(attempts) as u128)
        }
    }

    /// Decides, after `attempts` attempts whose last one gave `outcome`, whether
    /// to hand that outcome back or to wait and attempt again.
    pub fn after_attempt(&self, attempts: u32, outcome: AttemptOutcome) -> (d: RetryDecision)
        requires
            attempts >= 1,
            self.spec_backoff().well_formed(),
        ensures
            d == self.spec_after_attempt(attempts as nat, outcome),
    {
        let give_up = match outcome {
            AttemptOutcome::Response(status) => !self.is_retryable(status) || attempts
                >= self.max_attempts,
            AttemptOutcome::Failed => attempts >= self.max_attempts,
        };
        if give_up {
            RetryDecision::Finish
        } else {
            RetryDecision::RetryAfter(self.backoff.delay(attempts))
        }
    }

    /// The number of attempts made when the successive attempts give `outcomes`,
    /// counting from attempt `k + 1`; `None` when the outcomes run out first.
    pub open spec fn attempts_made(self, outcomes: Seq<AttemptOutcome>, k: nat) -> Option<nat>
        decreases outcomes.len() - k,
    {
        if k >= outcomes.len() {
            None
        } else if self.spec_after_attempt(k + 1, outcomes[k as int]) == RetryDecision::Finish {
            Some(k + 1)
        } else {
            self.attempts_made(outcomes, k + 1)
        }
    }
}

/// The number of attempts that a policy makes is at most `max_attempts`, and at
/// least one attempt is always made: for any outcomes of the successive attempts,
/// the run stops by attempt `max(1, max_attempts)`.
pub proof fn law_attempts_bounded(r: Retry, outcomes: Seq<AttemptOutcome>)
    requires
        outcomes.len() >= r.spec_max_attempts(),
        outcomes.len() >= 1,
    ensures
        r.attempts_made(outcomes, 0) is Some,
        r.attempts_made(outcomes, 0)->0 >= 1,
        r.attempts_made(outcomes, 0)->0 <= if r.spec_max_attempts() >= 1 {
            r.spec_max_attempts() as nat
        } else {
            1
        },
{
    lemma_attempts_bounded_from(r, outcomes, 0);
}

proof fn lemma_attempts_bounded_from(r: Retry, outcomes: Seq<AttemptOutcome>, k: nat)
    requires
        outcomes.len() >= r.spec_max_attempts(),
        outcomes.len() >= 1,
        k < outcomes.len(),
        k < r.spec_max_attempts() || k == 0,
    ensures
        r.attempts_made(outcomes, k) is Some,
        r.attempts_made(outcomes, k)->0 >= k + 1,
        r.attempts_made(outcomes, k)->0 <= if r.spec_max_attempts() >= 1 {
            r.spec_max_attempts() as nat
        } else {
            1
        },
    decreases outcomes.len() - k,
{
    if r.spec_after_attempt(k + 1, outcomes[k as int]) == RetryDecision::Finish {
    } else {
        // Not finished: k + 1 < max_attempts, so the next attempt exists.
        lemma_attempts_bounded_from(r, outcomes, k + 1);
    }
}

/// Outcomes that keep being retried use up every attempt: when every outcome
/// is a failure or a response with a retryable status, exactly
/// `max(1, max_attempts)` attempts are made.
pub proof fn law_failures_use_every_attempt(r: Retry, outcomes: Seq<AttemptOutcome>)
    requires
        outcomes.len() >= r.spec_max_attempts(),
        outcomes.len() >= 1,
        forall|i: int|
            0 <= i < outcomes.len() ==> (#[trigger] outcomes[i] == AttemptOutcome::Failed
                || (outcomes[i] matches AttemptOutcome::Response(s) && r.spec_is_retryable(s))),
    ensures
        r.attempts_made(outcomes, 0) == Some(
            if r.spec_max_attempts() >= 1 {
                r.spec_max_attempts() as nat
            } else {
                1
            },
        ),
{
    lemma_failures_from(r, outcomes, 0);
}

proof fn lemma_failures_from(r: Retry, outcomes: Seq<AttemptOutcome>, k: nat)
    requires
        outcomes.len() >= r.spec_max_attempts(),
        outcomes.len() >= 1,
        k < outcomes.len(),
        k < r.spec_max_attempts() || k == 0,
        forall|i: int|
            0 <= i < outcomes.len() ==> (#[trigger] outcomes[i] == AttemptOutcome::Failed
                || (outcomes[i] matches AttemptOutcome::Response(s) && r.spec_is_retryable(s))),
    ensures
        r.attempts_made(outcomes, k) == Some(
            if r.spec_max_attempts() >= 1 {
                r.spec_max_attempts() as nat
            } else {
                1
            },
        ),
    decreases outcomes.len() - k,
{
    if r.spec_after_attempt(k + 1, outcomes[k as int]) == RetryDecision::Finish {
    } else {
        lemma_failures_from(r, outcomes, k + 1);
    }
}

/// An exponential backoff never waits longer than its `max`, and waits no less
/// after a later attempt than after an earlier one.
pub proof fn law_exponential_delay_capped_and_monotonic(b: BackoffStrategy, a1: nat, a2: nat)
    requires
        b is Exponential,
        b.well_formed(),
        1 <= a1 <= a2,
    ensures
        b.spec_delay(a1) <= b.spec_delay(a2),
        b.spec_delay(a2) <= b->max,
{
    let base = b->base as nat;
    lemma_pow2_monotonic((a1 - 1) as nat, (a2 - 1) as nat);
    let p1 = sat_pow2_u32((a1 - 1) as nat);
    let p2 = sat_pow2_u32((a2 - 1) as nat);
    assert(p1 <= p2);
    assert(base * p1 <= base * p2) by (nonlinear_arith)
        requires
            p1 <= p2,
    ;
}

/// A fixed backoff waits the same time after every attempt.
pub proof fn law_fixed_delay_constant(b: BackoffStrategy, a1: nat, a2: nat)
    requires
        b is Fixed,
    ensures
        b.spec_delay(a1) == b.spec_delay(a2),
        b.spec_delay(a1) == b->Fixed_0,
{
}

/// What a policy decides after an attempt: a response whose status is not
/// one of the policy's retried statuses is handed back at once, whatever the
/// attempt; a retried status or a failure is retried, after the backoff's wait
/// for that attempt, while attempts remain, and handed back once they are used
/// up.
pub proof fn law_retry_decision(r: Retry, attempts: nat, status: u16)
    ensures
        !r.spec_retry_statuses().contains(status) ==> r.spec_after_attempt(
            attempts,
            AttemptOutcome::Response(status),
        ) == RetryDecision::Finish,
        r.spec_retry_statuses().contains(status) && attempts < r.spec_max_attempts() ==> r.spec_after_attempt(
            attempts,
            AttemptOutcome::Response(status),
        ) == RetryDecision::RetryAfter(r.spec_backoff().spec_delay(attempts) as u128),
        attempts >= r.spec_max_attempts() ==> r.spec_after_attempt(
            attempts,
            AttemptOutcome::Response(status),
        ) == RetryDecision::Finish,
        attempts < r.spec_max_attempts() ==> r.spec_after_attempt(attempts, AttemptOutcome::Failed)
            == RetryDecision::RetryAfter(r.spec_backoff().spec_delay(attempts) as u128),
        attempts >= r.spec_max_attempts() ==> r.spec_after_attempt(attempts, AttemptOutcome::Failed)
            == RetryDecision::Finish,
{
}

} // verus!

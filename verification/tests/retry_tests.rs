use rfeign::retry::{
    default_retryable, saturating_mul_duration, saturating_pow2, AttemptOutcome, BackoffStrategy,
    Retry, RetryDecision, DURATION_MAX_NANOS,
};

const MS: u128 = 1_000_000;

#[test]
fn default_retryable_statuses() {
    for s in [429u16, 500, 502, 503, 504] {
        assert!(default_retryable(s));
    }
    for s in [200u16, 400, 404, 501, 505, 428] {
        assert!(!default_retryable(s));
    }
}

#[test]
fn new_policy_defaults() {
    let r = Retry::new(3);
    assert_eq!(r.max_attempts(), 3);
    assert_eq!(*r.backoff_strategy(), BackoffStrategy::Fixed(500 * MS));
    assert!(r.is_retryable(503));
    assert!(!r.is_retryable(404));
}

#[test]
fn fixed_delay_is_constant() {
    let b = BackoffStrategy::Fixed(250 * MS);
    assert_eq!(b.delay(1), 250 * MS);
    assert_eq!(b.delay(7), 250 * MS);
}

#[test]
fn exponential_delay_doubles_and_caps() {
    let b = BackoffStrategy::Exponential { base: 100 * MS, max: 1000 * MS };
    assert_eq!(b.delay(1), 100 * MS);
    assert_eq!(b.delay(2), 200 * MS);
    assert_eq!(b.delay(3), 400 * MS);
    assert_eq!(b.delay(4), 800 * MS);
    assert_eq!(b.delay(5), 1000 * MS);
    assert_eq!(b.delay(40), 1000 * MS);
}

#[test]
fn saturating_helpers() {
    assert_eq!(saturating_pow2(0), 1);
    assert_eq!(saturating_pow2(31), 1 << 31);
    assert_eq!(saturating_pow2(32), u32::MAX);
    assert_eq!(saturating_mul_duration(3, 4), 12);
    assert_eq!(saturating_mul_duration(DURATION_MAX_NANOS, 2), DURATION_MAX_NANOS);
    assert_eq!(saturating_mul_duration(5, 0), 0);
}

#[test]
fn decisions_follow_attempts_and_statuses() {
    let r = Retry::new(3).backoff(BackoffStrategy::Exponential { base: 10 * MS, max: 1000 * MS });
    assert_eq!(r.after_attempt(1, AttemptOutcome::Response(200)), RetryDecision::Finish);
    assert_eq!(r.after_attempt(1, AttemptOutcome::Response(503)), RetryDecision::RetryAfter(10 * MS));
    assert_eq!(r.after_attempt(2, AttemptOutcome::Failed), RetryDecision::RetryAfter(20 * MS));
    assert_eq!(r.after_attempt(3, AttemptOutcome::Failed), RetryDecision::Finish);
    assert_eq!(r.after_attempt(3, AttemptOutcome::Response(503)), RetryDecision::Finish);
}

#[test]
fn custom_statuses_replace_defaults() {
    let r = Retry::new(5).retryable(vec![418]);
    assert_eq!(r.after_attempt(1, AttemptOutcome::Response(418)), RetryDecision::RetryAfter(500 * MS));
    assert_eq!(r.after_attempt(1, AttemptOutcome::Response(503)), RetryDecision::Finish);
}

#[test]
fn failures_use_every_attempt() {
    // Scenario for the attempt bound: failures keep being retried until the limit.
    let r = Retry::new(4);
    let mut attempts = 0u32;
    loop {
        attempts += 1;
        match r.after_attempt(attempts, AttemptOutcome::Failed) {
            RetryDecision::Finish => break,
            RetryDecision::RetryAfter(_) => {}
        }
    }
    assert_eq!(attempts, 4);
    let zero = Retry::new(0);
    assert_eq!(zero.after_attempt(1, AttemptOutcome::Failed), RetryDecision::Finish);
}

#[test]
fn retryable_responses_use_every_attempt() {
    let r = Retry::new(3);
    let outcomes = [
        AttemptOutcome::Response(503),
        AttemptOutcome::Failed,
        AttemptOutcome::Response(429),
    ];
    let mut attempts = 0u32;
    for o in outcomes {
        attempts += 1;
        if r.after_attempt(attempts, o) == RetryDecision::Finish {
            break;
        }
    }
    assert_eq!(attempts, 3);
    assert_eq!(r.after_attempt(1, AttemptOutcome::Response(200)), RetryDecision::Finish);
}

use alloy::transports::TransportErrorKind;

use plexus::extractor::rpc::config::RetryConfig;
use plexus::extractor::rpc::error::{classify, RetryFlag, RpcError};
use plexus::extractor::rpc::retry::{
    apply_jitter, backoff_fits, backoff_wait, decide, delay_calc, saturating_pow2, AttemptOutcome,
    RetryDecision,
};
use plexus::extractor::rpc::transport::RateLimited;
use plexus::time::Duration;

fn fast_cfg() -> RetryConfig {
    RetryConfig {
        max_attempts: 3,
        base_delay: Duration::from_millis(1),
        max_delay: Duration::from_millis(4),
    }
}

#[test]
fn delay_calc_grows_then_clamps() {
    let cfg = RetryConfig::default(); // base 100ms, max 2s
    assert_eq!(delay_calc(1, &cfg), Duration::from_millis(100)); // 100 * 2^0
    assert_eq!(delay_calc(2, &cfg), Duration::from_millis(200)); // 100 * 2^1
    assert_eq!(delay_calc(3, &cfg), Duration::from_millis(400)); // 100 * 2^2
    assert_eq!(delay_calc(6, &cfg), Duration::from_secs(2)); // clamped
}

#[test]
fn saturating_pow2_matches_std() {
    for e in [0u32, 1, 5, 30, 31, 32, 33, 100, u32::MAX] {
        assert_eq!(saturating_pow2(e), 2u32.saturating_pow(e));
    }
}

#[test]
fn delay_calc_saturates_for_huge_attempts() {
    let cfg = RetryConfig::default();
    assert_eq!(delay_calc(u32::MAX, &cfg), Duration::from_secs(2));
    let uncapped = RetryConfig {
        max_attempts: 3,
        base_delay: Duration::from_millis(1),
        max_delay: Duration::from_secs(u64::MAX),
    };
    assert_eq!(delay_calc(40, &uncapped), Duration::from_millis(u32::MAX as u64));
}

#[test]
fn jitter_stays_within_bounds() {
    let cfg = RetryConfig::default();

    for attempt in 1..=6 {
        let computed = delay_calc(attempt, &cfg);
        for _ in 0..1_000 {
            assert!(apply_jitter(computed) <= computed);
        }
    }

    let ra = Duration::from_secs(5);
    let computed = delay_calc(2, &cfg);
    for _ in 0..1_000 {
        let w = backoff_wait(2, &cfg, Some(ra));
        assert!(w >= ra && w <= ra.plus(computed));
    }
}

#[test]
fn backoff_overflow_is_detected() {
    let cfg = RetryConfig::default();
    assert!(backoff_fits(3, &cfg, None));
    assert!(backoff_fits(3, &cfg, Some(Duration::from_secs(7))));
    assert!(!backoff_fits(3, &cfg, Some(Duration::new(u64::MAX, 999_999_999))));
    let huge = RetryConfig {
        max_attempts: 3,
        base_delay: Duration::from_secs(u64::MAX / 2),
        max_delay: Duration::from_secs(1),
    };
    assert!(!backoff_fits(3, &huge, None));
}

// A small driver of the retry decisions: outcomes are handed in order, and
// the number of attempts made and the final result are returned.
fn drive(cfg: &RetryConfig, outcomes: Vec<AttemptOutcome>) -> (u32, Result<(), RpcError>) {
    let mut attempt = 0u32;
    for outcome in outcomes {
        attempt += 1;
        match decide(attempt, "m", cfg, Duration::from_secs(5), outcome) {
            RetryDecision::Succeed => return (attempt, Ok(())),
            RetryDecision::GiveUp(e) => return (attempt, Err(e)),
            RetryDecision::Retry(floor) => {
                assert!(backoff_fits(attempt, cfg, floor));
                let w = backoff_wait(attempt, cfg, floor);
                assert!(w <= Duration::from_millis(4).plus(floor.unwrap_or(Duration::zero())));
            }
        }
    }
    panic!("ran out of outcomes after {attempt} attempts");
}

fn transient() -> AttemptOutcome {
    let (e, f) = classify(TransportErrorKind::custom_str("boom"), None, "m");
    AttemptOutcome::Failed(e, f)
}

fn rate_limited() -> AttemptOutcome {
    let signal = RateLimited { retry_after: Some(Duration::from_millis(2)) };
    let (e, f) = classify(TransportErrorKind::custom_str("rate limited (HTTP 429)"), Some(signal), "m");
    AttemptOutcome::Failed(e, f)
}

#[test]
fn decide_ok_on_first_attempt() {
    let (n, r) = drive(&fast_cfg(), vec![AttemptOutcome::Succeeded]);
    assert!(r.is_ok());
    assert_eq!(n, 1);
}

#[test]
fn decide_fail_fast_does_not_retry() {
    let payload = serde_json::from_str::<alloy::rpc::json_rpc::ErrorPayload>(
        r#"{"code":-32000,"message":"execution reverted","data":null}"#,
    )
    .unwrap();
    let (e, f) = classify(alloy::transports::TransportError::ErrorResp(payload), None, "m");
    let (n, r) = drive(&fast_cfg(), vec![AttemptOutcome::Failed(e, f), AttemptOutcome::Succeeded]);
    assert!(matches!(r, Err(RpcError::RpcResponse { .. })));
    assert_eq!(n, 1);
}

#[test]
fn decide_retries_transient_then_succeeds() {
    let (n, r) = drive(&fast_cfg(), vec![transient(), transient(), AttemptOutcome::Succeeded]);
    assert!(r.is_ok());
    assert_eq!(n, 3);
}

#[test]
fn decide_exhausts_after_max_attempts() {
    let (n, r) = drive(&fast_cfg(), vec![transient(), transient(), transient(), transient()]);
    match r {
        Err(RpcError::RetriesExhausted { attempt_count, method, .. }) => {
            assert_eq!(attempt_count, 3);
            assert_eq!(method, "m");
        }
        other => panic!("expected RetriesExhausted, got {other:?}"),
    }
    assert_eq!(n, 3);
}

#[test]
fn decide_times_out_then_exhausts() {
    let (n, r) = drive(
        &fast_cfg(),
        vec![AttemptOutcome::TimedOut, AttemptOutcome::TimedOut, AttemptOutcome::TimedOut],
    );
    match r {
        Err(RpcError::RetriesExhausted { attempt_count, source, .. }) => {
            assert_eq!(attempt_count, 3);
            match *source {
                RpcError::Timeout { elapsed, .. } => assert_eq!(elapsed, Some(Duration::from_secs(5))),
                other => panic!("expected Timeout, got {other:?}"),
            }
        }
        other => panic!("expected RetriesExhausted, got {other:?}"),
    }
    assert_eq!(n, 3);
}

#[test]
fn decide_times_out_then_succeeds() {
    let (n, r) = drive(&fast_cfg(), vec![AttemptOutcome::TimedOut, AttemptOutcome::Succeeded]);
    assert!(r.is_ok());
    assert_eq!(n, 2);
}

#[test]
fn decide_rate_limited_then_succeeds_with_floor() {
    let d = decide(1, "m", &fast_cfg(), Duration::from_secs(5), rate_limited());
    match d {
        RetryDecision::Retry(floor) => assert_eq!(floor, Some(Duration::from_millis(2))),
        other => panic!("expected Retry, got {other:?}"),
    }
    let (n, r) = drive(&fast_cfg(), vec![rate_limited(), AttemptOutcome::Succeeded]);
    assert!(r.is_ok());
    assert_eq!(n, 2);
}

#[test]
fn decide_rate_limited_exhausts_with_rate_limited_source() {
    let (n, r) = drive(&fast_cfg(), vec![rate_limited(), rate_limited(), rate_limited()]);
    match r {
        Err(RpcError::RetriesExhausted { attempt_count, source, .. }) => {
            assert_eq!(attempt_count, 3);
            assert!(matches!(*source, RpcError::RateLimited { .. }));
        }
        other => panic!("expected RetriesExhausted, got {other:?}"),
    }
    assert_eq!(n, 3);
}

#[test]
fn decide_resumed_call_makes_one_more_attempt() {
    // resuming after 5 attempts with a budget of 3: the next attempt is the last
    let d = decide(6, "m", &fast_cfg(), Duration::from_secs(5), transient());
    assert!(matches!(d, RetryDecision::GiveUp(RpcError::RetriesExhausted { attempt_count: 6, .. })));
}

#[test]
fn retry_flag_equality() {
    assert_eq!(RetryFlag::Retry, RetryFlag::Retry);
    assert_ne!(RetryFlag::Retry, RetryFlag::Fail);
}

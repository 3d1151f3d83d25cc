//! The retry policy: exponential backoff with full jitter, a floor set by the
//! server's `retry-after`, and the decision taken after each attempt.
use vstd::prelude::*;

use rand::Rng;

use crate::extractor::rpc::config::RetryConfig;
use crate::extractor::rpc::error::{RetryFlag, RpcError};
use crate::time::{Duration, MAX_NANOS, NANOS_PER_MILLI};

verus! {

/// 2 to the power `n`.
pub open spec fn exp2(n: nat) -> nat
    decreases n,
{
    if n == 0 {
        1
    } else {
        2 * exp2((n - 1) as nat)
    }
}

/// `2u32.saturating_pow(n)`: 2 to the power `n`, or `u32::MAX` where that is larger.
pub open spec fn saturating_exp2(n: nat) -> nat {
    if exp2(n) > u32::MAX {
        u32::MAX as nat
    } else {
        exp2(n)
    }
}

proof fn lemma_exp2_monotone(i: nat, j: nat)
    requires
        i <= j,
    ensures
        exp2(i) <= exp2(j),
    decreases j - i,
{
    if i < j {
        lemma_exp2_monotone(i, (j - 1) as nat);
    }
}

proof fn lemma_saturating_exp2_monotone(i: nat, j: nat)
    requires
        i <= j,
    ensures
        saturating_exp2(i) <= saturating_exp2(j),
{
    lemma_exp2_monotone(i, j);
}

/// `2u32.saturating_pow(exp)`.
pub fn saturating_pow2(exp: u32) -> (r: u32)
    ensures
        r == saturating_exp2(exp as nat),
{
    let mut r: u32 = 1;
    let mut i: u32 = 0;
    while i < exp && r < u32::MAX
        invariant
            i <= exp,
            r == saturating_exp2(i as nat),
        decreases exp - i,
    {
        assert(exp2((i + 1) as nat) == 2 * exp2(i as nat));
        if r > u32::MAX / 2 {
            r = u32::MAX;
        } else {
            r = r * 2;
        }
        i = i + 1;
    }
    proof {
        if i < exp {
            lemma_exp2_monotone(i as nat, exp as nat);
        }
    }
    r
}

/// The pause after attempt `attempt`, before jitter: `base_delay * 2^(attempt - 1)`,
/// the factor saturating at `u32::MAX`, capped at `max_delay`.
pub open spec fn backoff_delay(attempt: nat, cfg: RetryConfig) -> nat {
    let grown: nat = cfg.base_delay@ * saturating_exp2((attempt - 1) as nat);
    if grown <= cfg.max_delay@ {
        grown
    } else {
        cfg.max_delay@
    }
}

/// Whether `base_delay * 2^(attempt - 1)` fits in a duration.
pub open spec fn delay_fits(attempt: nat, cfg: RetryConfig) -> bool {
    cfg.base_delay@ * saturating_exp2((attempt - 1) as nat) <= MAX_NANOS
}

/// The pause after attempt `attempt` (counted from 1), before jitter.
pub fn delay_calc(attempt: u32, retry_config: &RetryConfig) -> (d: Duration)
    requires
        attempt >= 1,
        delay_fits(attempt as nat, *retry_config),
    ensures
        d@ == backoff_delay(attempt as nat, *retry_config),
{
    let factor: u32 = saturating_pow2(attempt - 1);
    let grown = retry_config.base_delay.checked_mul(factor).unwrap();
    grown.min(retry_config.max_delay)
}

/// `n` whole milliseconds, in nanoseconds.
pub open spec fn millis_to_nanos(n: nat) -> nat {
    n * (NANOS_PER_MILLI as nat)
}

/// The jitter bound in whole milliseconds for a pause of `computed` nanoseconds:
/// its milliseconds, cut to 64 bits.
pub open spec fn jitter_cap(computed: nat) -> nat {
    (computed / (NANOS_PER_MILLI as nat)) % 0x1_0000_0000_0000_0000
}

/// rand's `Rng::gen_range` over `0..=high`, on the thread-local generator: a
/// number drawn from `0..=high`; which one is left open.
#[verifier::external_body]
fn random_at_most(high: u64) -> (r: u64)
    ensures
        r <= high,
{
    rand::thread_rng().gen_range(0..=high)
}

/// `r` is a number that the random source may give when drawing from `0..=high`.
pub closed spec fn is_possible_draw(high: u64, r: u64) -> bool {
    call_ensures(random_at_most, (high,), r)
}

/// Every number the random source may give for `0..=high` lies in `0..=high`.
pub proof fn lemma_possible_draw_within_range(high: u64, r: u64)
    requires
        is_possible_draw(high, r),
    ensures
        r <= high,
{
}

/// A jitter of at most the cap, in milliseconds, never exceeds the pause it jitters.
pub proof fn lemma_jitter_within_delay(computed: nat, draw: nat)
    requires
        draw <= jitter_cap(computed),
    ensures
        millis_to_nanos(draw) <= computed,
{
    let m: nat = NANOS_PER_MILLI as nat;
    assert(computed / m % 0x1_0000_0000_0000_0000 <= computed / m);
    assert(draw * m <= (computed / m) * m) by (nonlinear_arith)
        requires
            draw <= computed / m,
    ;
    assert((computed / m) * m <= computed) by (nonlinear_arith)
        requires
            m > 0,
    ;
}

/// Full jitter over `[0, computed]`, in whole milliseconds: one draw of the
/// random source over the whole range `0..=` the pause's milliseconds.
pub fn apply_jitter(computed: Duration) -> (d: Duration)
    ensures
        exists|draw: nat| draw <= jitter_cap(computed@) && d@ == #[trigger] millis_to_nanos(draw),
        exists|draw: u64|
            is_possible_draw(jitter_cap(computed@) as u64, draw) && d@
                == #[trigger] millis_to_nanos(draw as nat),
        d@ <= computed@,
{
    let millis: u128 = computed.as_millis();
    let high: u64 = (millis % 0x1_0000_0000_0000_0000u128) as u64;
    let draw_from = random_at_most;
    let draw: u64 = draw_from(high);
    let d = Duration::from_millis(draw);
    proof {
        assert(d@ == millis_to_nanos(draw as nat));
        let c: nat = computed@;
        assert(draw <= c / (NANOS_PER_MILLI as nat));
        assert(draw * (NANOS_PER_MILLI as nat) <= (c / (NANOS_PER_MILLI as nat)) * (
        NANOS_PER_MILLI as nat)) by (nonlinear_arith)
            requires
                draw <= c / (NANOS_PER_MILLI as nat),
        ;
        assert((c / (NANOS_PER_MILLI as nat)) * (NANOS_PER_MILLI as nat) <= c) by (nonlinear_arith);
    }
    d
}

/// The floor that a server's `retry-after` sets on the pause; none sets none.
pub open spec fn floor_of(retry_after: Option<Duration>) -> nat {
    match retry_after {
        Some(d) => d@,
        None => 0,
    }
}

/// Whether every pause that `backoff_wait` can draw fits in a duration.
pub open spec fn wait_fits(attempt: nat, cfg: RetryConfig, retry_after: Option<Duration>) -> bool {
    &&& delay_fits(attempt, cfg)
    &&& floor_of(retry_after) + jitter_cap(backoff_delay(attempt, cfg)) * (NANOS_PER_MILLI as nat)
        <= MAX_NANOS
}

/// Whether the pause after attempt `attempt` can be computed without overflow.
pub fn backoff_fits(attempt: u32, retry_config: &RetryConfig, retry_after: Option<Duration>) -> (b:
    bool)
    requires
        attempt >= 1,
    ensures
        b == wait_fits(attempt as nat, *retry_config, retry_after),
{
    let factor: u32 = saturating_pow2(attempt - 1);
    match retry_config.base_delay.checked_mul(factor) {
        None => false,
        Some(grown) => {
            let computed = grown.min(retry_config.max_delay);
            let high: u128 = computed.as_millis() % 0x1_0000_0000_0000_0000u128;
            let floor: u128 = match retry_after {
                Some(d) => d.as_nanos(),
                None => 0,
            };
            let jitter_max: u128 = high * NANOS_PER_MILLI;
            floor <= MAX_NANOS && jitter_max <= MAX_NANOS - floor
        },
    }
}

/// The whole pause after attempt `attempt`: full jitter over the backoff delay,
/// with the server's `retry-after`, where there is one, added on top as a floor.
pub fn backoff_wait(attempt: u32, retry_config: &RetryConfig, retry_after: Option<Duration>) -> (d:
    Duration)
    requires
        attempt >= 1,
        wait_fits(attempt as nat, *retry_config, retry_after),
    ensures
        exists|draw: nat|
            draw <= jitter_cap(backoff_delay(attempt as nat, *retry_config)) && d@ == floor_of(
                retry_after,
            ) + #[trigger] millis_to_nanos(draw),
        exists|draw: u64|
            is_possible_draw(jitter_cap(backoff_delay(attempt as nat, *retry_config)) as u64, draw)
                && d@ == floor_of(retry_after) + #[trigger] millis_to_nanos(draw as nat),
        floor_of(retry_after) <= d@ <= floor_of(retry_after) + backoff_delay(
            attempt as nat,
            *retry_config,
        ),
{
    let computed = delay_calc(attempt, retry_config);
    let jitter = apply_jitter(computed);
    let floor = match retry_after {
        Some(d) => d,
        None => Duration::zero(),
    };
    proof {
        let draw = choose|draw: nat|
            draw <= jitter_cap(computed@) && jitter@ == #[trigger] millis_to_nanos(draw);
        assert(draw * (NANOS_PER_MILLI as nat) <= jitter_cap(computed@) * (NANOS_PER_MILLI as nat))
            by (nonlinear_arith)
            requires
                draw <= jitter_cap(computed@),
        ;
        let r = choose|r: u64|
            is_possible_draw(jitter_cap(computed@) as u64, r) && jitter@ == #[trigger] millis_to_nanos(
                r as nat,
            );
        assert(floor@ == floor_of(retry_after));
        assert(floor_of(retry_after) + millis_to_nanos(r as nat) == jitter@ + floor@);
    }
    jitter.plus(floor)
}

/// What one attempt came to.
#[derive(Debug)]
pub enum AttemptOutcome {
    /// The node answered with a result.
    Succeeded,
    /// The attempt took longer than it was allowed.
    TimedOut,
    /// The attempt failed, sorted into an error and a verdict on retrying.
    Failed(RpcError, RetryFlag),
}

/// What to do after an attempt.
#[derive(Debug)]
pub enum RetryDecision {
    /// Hand the result to the caller.
    Succeed,
    /// Stop and return this error.
    GiveUp(RpcError),
    /// Back off and try again; the server's `retry-after`, where it gave one, is a floor on the pause.
    Retry(Option<Duration>),
}

/// `e` is the timeout of an attempt of `method` that was allowed `timeout`.
pub open spec fn is_timeout(e: RpcError, method: Seq<char>, timeout: Duration) -> bool {
    e matches RpcError::Timeout { elapsed, method: m } && elapsed == Some(timeout) && m@ == method
}

/// `e` reports that `method` failed on each of its `attempt` attempts, the last with `last`.
pub open spec fn is_exhausted(e: RpcError, method: Seq<char>, attempt: u32, last: RpcError) -> bool {
    e matches RpcError::RetriesExhausted { method: m, attempt_count, source } && m@ == method
        && attempt_count == attempt && *source == last
}

/// The delay that a rate-limited failure asks for; other failures ask for none.
pub open spec fn requested_delay(e: RpcError) -> Option<Duration> {
    match e {
        RpcError::RateLimited { retry_after, .. } => retry_after,
        _ => None,
    }
}

/// Whether an outcome may be tried again: a timeout, or a failure flagged `Retry`.
pub open spec fn is_retryable(outcome: AttemptOutcome) -> bool {
    match outcome {
        AttemptOutcome::Succeeded => false,
        AttemptOutcome::TimedOut => true,
        AttemptOutcome::Failed(_, flag) => flag == RetryFlag::Retry,
    }
}

/// The decision after attempt number `attempt` of `method`, allowed `max_attempts`
/// attempts of `timeout` each: a result is handed over; a failure flagged `Fail` is
/// returned as it is; a retryable outcome is retried while attempts are left, and
/// ends the call with `RetriesExhausted` once they are used up.
pub open spec fn decided(
    d: RetryDecision,
    attempt: u32,
    method: Seq<char>,
    max_attempts: u8,
    timeout: Duration,
    outcome: AttemptOutcome,
) -> bool {
    match outcome {
        AttemptOutcome::Succeeded => d is Succeed,
        AttemptOutcome::TimedOut => if attempt >= max_attempts {
            d matches RetryDecision::GiveUp(e) && e matches RpcError::RetriesExhausted {
                method: m,
                attempt_count,
                source,
            } && m@ == method && attempt_count == attempt && is_timeout(*source, method, timeout)
        } else {
            d == RetryDecision::Retry(None)
        },
        AttemptOutcome::Failed(err, flag) => if flag == RetryFlag::Fail {
            d == RetryDecision::GiveUp(err)
        } else if attempt >= max_attempts {
            d matches RetryDecision::GiveUp(e) && is_exhausted(e, method, attempt, err)
        } else {
            d == RetryDecision::Retry(requested_delay(err))
        },
    }
}

/// Decides what follows attempt number `attempt` (counted from 1) of `method`.
pub fn decide(
    attempt: u32,
    method: &str,
    retry_config: &RetryConfig,
    attempt_timeout: Duration,
    outcome: AttemptOutcome,
) -> (d: RetryDecision)
    ensures
        decided(d, attempt, method@, retry_config.max_attempts, attempt_timeout, outcome),
{
    match outcome {
        AttemptOutcome::Succeeded => RetryDecision::Succeed,
        AttemptOutcome::TimedOut => {
            let rpc_error = RpcError::Timeout {
                elapsed: Some(attempt_timeout),
                method: method.to_owned(),
            };
            if attempt >= retry_config.max_attempts as u32 {
                RetryDecision::GiveUp(
                    RpcError::RetriesExhausted {
                        method: method.to_owned(),
                        attempt_count: attempt,
                        source: Box::new(rpc_error),
                    },
                )
            } else {
                RetryDecision::Retry(None)
            }
        },
        AttemptOutcome::Failed(rpc_error, flag) => {
            if flag == RetryFlag::Fail {
                return RetryDecision::GiveUp(rpc_error);
            }
            if attempt >= retry_config.max_attempts as u32 {
                return RetryDecision::GiveUp(
                    RpcError::RetriesExhausted {
                        method: method.to_owned(),
                        attempt_count: attempt,
                        source: Box::new(rpc_error),
                    },
                );
            }
            let floor = match &rpc_error {
                RpcError::RateLimited { retry_after, .. } => *retry_after,
                _ => None,
            };
            RetryDecision::Retry(floor)
        },
    }
}

/// The pause before jitter never exceeds `max_delay`.
pub proof fn lemma_delay_capped(attempt: nat, cfg: RetryConfig)
    ensures
        backoff_delay(attempt, cfg) <= cfg.max_delay@,
{
}

/// The pause before jitter never shrinks from one attempt to a later one.
pub proof fn lemma_delay_monotone(a: nat, b: nat, cfg: RetryConfig)
    requires
        1 <= a <= b,
    ensures
        backoff_delay(a, cfg) <= backoff_delay(b, cfg),
{
    let x: nat = saturating_exp2((a - 1) as nat);
    let y: nat = saturating_exp2((b - 1) as nat);
    lemma_saturating_exp2_monotone((a - 1) as nat, (b - 1) as nat);
    let base: nat = cfg.base_delay@;
    assert(base * x <= base * y) by (nonlinear_arith)
        requires
            x <= y,
    ;
}

/// Below the cap, and while the factor has not saturated, the pause doubles
/// from one attempt to the next: `base_delay`, then twice it, four times it, ...
pub proof fn lemma_delay_doubles(a: nat, cfg: RetryConfig)
    requires
        a >= 1,
        exp2(a) <= u32::MAX,
        cfg.base_delay@ * exp2(a) <= cfg.max_delay@,
    ensures
        backoff_delay(a, cfg) == cfg.base_delay@ * exp2((a - 1) as nat),
        backoff_delay(a + 1, cfg) == 2 * backoff_delay(a, cfg),
{
    let base: nat = cfg.base_delay@;
    let x: nat = exp2((a - 1) as nat);
    lemma_exp2_monotone((a - 1) as nat, a);
    assert(exp2(a) == 2 * x);
    assert(base * x <= base * exp2(a)) by (nonlinear_arith)
        requires
            x <= exp2(a),
    ;
    assert(base * exp2(a) == 2 * (base * x)) by (nonlinear_arith)
        requires
            exp2(a) == 2 * x,
    ;
}

/// A call is only retried on a retryable outcome, and only while attempts are left.
pub proof fn lemma_retry_within_budget(
    d: RetryDecision,
    attempt: u32,
    method: Seq<char>,
    max_attempts: u8,
    timeout: Duration,
    outcome: AttemptOutcome,
)
    requires
        decided(d, attempt, method, max_attempts, timeout, outcome),
        d is Retry,
    ensures
        attempt < max_attempts,
        is_retryable(outcome),
{
}

/// A result is handed over at once, and a failure flagged `Fail` is returned as
/// it is, on any attempt.
pub proof fn lemma_no_retry_on_success_or_fatal(
    d: RetryDecision,
    attempt: u32,
    method: Seq<char>,
    max_attempts: u8,
    timeout: Duration,
    outcome: AttemptOutcome,
)
    requires
        decided(d, attempt, method, max_attempts, timeout, outcome),
    ensures
        outcome is Succeeded ==> d is Succeed,
        outcome matches AttemptOutcome::Failed(e, flag) ==> (flag == RetryFlag::Fail ==> d
            == RetryDecision::GiveUp(e)),
{
}

/// Once its attempts are used up, a retryable outcome ends the call with
/// `RetriesExhausted`, counting the attempts made and keeping the last failure.
pub proof fn lemma_exhaustion(
    d: RetryDecision,
    attempt: u32,
    method: Seq<char>,
    max_attempts: u8,
    timeout: Duration,
    outcome: AttemptOutcome,
)
    requires
        decided(d, attempt, method, max_attempts, timeout, outcome),
        is_retryable(outcome),
        attempt >= max_attempts,
    ensures
        d matches RetryDecision::GiveUp(e) && e matches RpcError::RetriesExhausted {
            attempt_count,
            ..
        } && attempt_count == attempt,
        outcome matches AttemptOutcome::Failed(last, _) ==> (d matches RetryDecision::GiveUp(e)
            && is_exhausted(e, method, attempt, last)),
{
}

/// The number of the last attempt of a call that resumes after `start` attempts
/// and is allowed `max_attempts`: at least one more attempt is always made.
pub open spec fn final_attempt(start: nat, max_attempts: nat) -> nat {
    if start + 1 >= max_attempts {
        start + 1
    } else {
        max_attempts
    }
}

/// Persistent retryable failures: a call that resumes after `start` attempts and
/// meets a retryable outcome on every attempt is retried on each attempt before
/// `final_attempt(start, max_attempts)`, and gives up on that one, reporting it
/// as the number of attempts. From `start == 0` that is `max_attempts` attempts,
/// or one where `max_attempts` is 0.
pub proof fn lemma_persistent_failures_end_at_budget(
    d: RetryDecision,
    n: u32,
    start: u32,
    method: Seq<char>,
    max_attempts: u8,
    timeout: Duration,
    outcome: AttemptOutcome,
)
    requires
        start < n <= final_attempt(start as nat, max_attempts as nat),
        is_retryable(outcome),
        decided(d, n, method, max_attempts, timeout, outcome),
    ensures
        n < final_attempt(start as nat, max_attempts as nat) ==> d is Retry,
        n == final_attempt(start as nat, max_attempts as nat) ==> (d matches RetryDecision::GiveUp(
            e,
        ) && e matches RpcError::RetriesExhausted { attempt_count, .. } && attempt_count == n),
{
}

} // verus!

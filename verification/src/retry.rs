//! Retry policy: which failures are retried, how long to wait before each retry,
//! and what to do after a failed attempt.

use std::time::Duration;

use vstd::prelude::*;

use crate::error::{error_for_status, transport_error, Error};
use crate::time::{clock_subsec_nanos, duration_from_nanos, duration_to_nanos, millis, nanos, seconds};

verus! {

/// The jitter fraction that means "subtract up to the whole delay", in millionths.
pub const JITTER_SCALE: u32 = 1_000_000;

/// Random samples are drawn uniformly-ish from `0..SAMPLE_RANGE`.
pub const SAMPLE_RANGE: u64 = 10_000;

/// Retry behaviour for transient failures.
///
/// Retried: HTTP 408, 429, every 5xx (including 529 Overloaded), connection errors and
/// timeouts. Not retried: 4xx other than 408/429.
#[derive(Clone, Debug, PartialEq)]
pub struct RetryPolicy {
    /// Retries after the first attempt. `0` disables retrying.
    pub max_retries: u32,
    /// First backoff delay; doubled on each retry up to `backoff_max`.
    pub backoff_initial: Duration,
    /// Upper bound for a backoff delay, and for an honoured `retry-after`.
    pub backoff_max: Duration,
    /// Fraction of each delay randomly subtracted, in millionths: `0` never shortens a
    /// delay, `1_000_000` may shorten it to nothing. Larger values count as `1_000_000`.
    pub backoff_jitter: u32,
    /// Honour a `retry-after` header when the server sends one.
    pub respect_retry_after: bool,
}

/// Whether a response status is worth another attempt.
pub open spec fn retryable_status(status: u16) -> bool {
    status == 408 || status == 429 || (500 <= status <= 599)
}

/// Whether a response status is a success.
pub open spec fn success_status(status: u16) -> bool {
    200 <= status < 300
}

/// `2^k`, saturating at `u32::MAX` as `u32::saturating_pow` does.
pub open spec fn doubling_factor(k: nat) -> int
    decreases k,
{
    if k == 0 {
        1
    } else {
        let f = 2 * doubling_factor((k - 1) as nat);
        if f > u32::MAX { u32::MAX as int } else { f }
    }
}

/// The jitter fraction after clamping to `0..=JITTER_SCALE`.
pub open spec fn clamped_jitter(jitter: u32) -> int {
    if jitter > JITTER_SCALE { JITTER_SCALE as int } else { jitter as int }
}

/// The un-jittered backoff before retry number `retry` (1-based), in nanoseconds:
/// the initial delay doubled for each earlier retry, capped at `backoff_max`.
pub open spec fn backoff_nanos(p: RetryPolicy, retry: u32) -> int {
    let k: nat = if retry == 0 { 0 } else { (retry - 1) as nat };
    let exp = nanos(p.backoff_initial) * doubling_factor(k);
    if exp < nanos(p.backoff_max) { exp } else { nanos(p.backoff_max) }
}

/// The delay before retry number `retry`, in nanoseconds, when the random draw is
/// `sample` (in `0..SAMPLE_RANGE`). An honoured `retry-after` wins, capped at
/// `backoff_max`, and gets no jitter.
pub open spec fn delay_nanos(p: RetryPolicy, retry: u32, retry_after: Option<Duration>, sample: int) -> int {
    if p.respect_retry_after && retry_after is Some {
        let d = nanos(retry_after->0);
        if d < nanos(p.backoff_max) { d } else { nanos(p.backoff_max) }
    } else {
        let base = backoff_nanos(p, retry);
        let j = clamped_jitter(p.backoff_jitter);
        base - (base * (j * sample)) / (JITTER_SCALE * SAMPLE_RANGE)
    }
}

/// Whether `d` is the delay before retry number `retry` for some random draw.
pub open spec fn possible_delay(p: RetryPolicy, retry: u32, retry_after: Option<Duration>, d: Duration) -> bool {
    exists|s: int| 0 <= s < SAMPLE_RANGE && nanos(d) == delay_nanos(p, retry, retry_after, s)
}

/// The mixing step behind the random draw.
pub open spec fn mix(seed: u64) -> u64 {
    let x0 = seed ^ 0x9E37_79B9_7F4A_7C15u64;
    let x1 = x0 ^ (x0 << 13u64);
    let x2 = x1 ^ (x1 >> 7u64);
    x2 ^ (x2 << 17u64)
}

/// A cheap draw in `0..SAMPLE_RANGE` from a seed; jitter needs no quality.
pub fn sample_from_seed(seed: u64) -> (r: u64)
    ensures
        r == mix(seed) % SAMPLE_RANGE,
        r < SAMPLE_RANGE,
{
    let mut x: u64 = seed ^ 0x9E37_79B9_7F4A_7C15u64;
    x = x ^ (x << 13u64);
    x = x ^ (x >> 7u64);
    x = x ^ (x << 17u64);
    x % SAMPLE_RANGE
}

/// The draw that a clock seed gives.
pub open spec fn draw_from(seed: u32) -> u64 {
    mix(seed as u64) % SAMPLE_RANGE
}

/// A draw in `0..SAMPLE_RANGE`: the mixing step applied to the nanoseconds past
/// the last whole second of the wall clock (a seed below one billion).
pub fn unit_sample() -> (r: u64)
    ensures
        r < SAMPLE_RANGE,
        exists|seed: u32| seed < 1_000_000_000 && r == #[trigger] draw_from(seed),
{
    let seed = clock_subsec_nanos();
    let r = sample_from_seed(seed as u64);
    assert(seed < 1_000_000_000 && r == draw_from(seed));
    r
}

/// What went wrong with one attempt.
pub enum Failure {
    /// The server answered with a non-success status.
    Status { status: u16, retry_after: Option<Duration>, message: String },
    /// The request produced no response.
    Transport(reqwest::Error),
}

/// What to do after a failed attempt.
pub enum Next {
    /// Give up with this error.
    Stop(Error),
    /// Wait `delay`, then make attempt number `retry + 1` (retry `retry`, 1-based).
    Retry { retry: u32, delay: Duration },
}

/// Whether a failure may be retried at all.
pub open spec fn failure_retryable(f: Failure) -> bool {
    match f {
        Failure::Status { status, .. } => retryable_status(status),
        Failure::Transport(_) => true,
    }
}

/// The `retry-after` that a failure carries.
pub open spec fn failure_retry_after(f: Failure) -> Option<Duration> {
    match f {
        Failure::Status { retry_after, .. } => retry_after,
        Failure::Transport(_) => None,
    }
}

/// The error that reports a failure.
pub open spec fn failure_error(f: Failure) -> Error {
    match f {
        Failure::Status { status, retry_after, message } => error_for_status(status, retry_after, message),
        Failure::Transport(e) => transport_error(e),
    }
}

/// Whether a run stops after attempt number `retry + 1` failed with `f`: the
/// failure is not retryable, or no retries are left.
pub open spec fn stops_after(p: RetryPolicy, retry: int, f: Failure) -> bool {
    !failure_retryable(f) || retry >= p.max_retries
}

/// How many attempts a run makes when its attempts fail with `failures` in turn,
/// counting from retry number `retry`; a run that is not stopped by the failures
/// given has made one attempt per failure.
pub open spec fn attempts_from(p: RetryPolicy, failures: Seq<Failure>, retry: int) -> int
    decreases failures.len(),
{
    if failures.len() == 0 {
        0
    } else if stops_after(p, retry, failures[0]) {
        1
    } else {
        1 + attempts_from(p, failures.drop_first(), retry + 1)
    }
}

impl RetryPolicy {
    /// Never retry.
    pub fn none() -> (r: RetryPolicy)
        ensures
            r.max_retries == 0,
            nanos(r.backoff_initial) == 500_000_000,
            nanos(r.backoff_max) == 5_000_000_000,
            r.backoff_jitter == 250_000,
            r.respect_retry_after,
    {
        RetryPolicy { max_retries: 0, ..RetryPolicy::default() }
    }

    /// Whether a response `status` is retried: 408, 429 and every 5xx.
    pub fn is_retryable_status(status: u16) -> (r: bool)
        ensures
            r == retryable_status(status),
            500 <= status <= 599 ==> r,
            status == 408 || status == 429 ==> r,
            status < 500 && status != 408 && status != 429 ==> !r,
            status > 599 ==> !r,
    {
        status == 408 || status == 429 || (500 <= status && status <= 599)
    }

    /// Whether a response `status` is a success (2xx).
    pub fn is_success_status(status: u16) -> (r: bool)
        ensures
            r == success_status(status),
    {
        200 <= status && status < 300
    }

    /// The delay before retry number `retry` (1-based) for a given random draw `sample`.
    pub fn delay_with_sample(&self, retry: u32, retry_after: Option<Duration>, sample: u64) -> (r: Duration)
        requires
            sample < SAMPLE_RANGE,
        ensures
            nanos(r) == delay_nanos(*self, retry, retry_after, sample as int),
    {
        let max = duration_to_nanos(&self.backoff_max);
        if self.respect_retry_after {
            if let Some(d) = retry_after {
                let dn = duration_to_nanos(&d);
                if dn < max {
                    return d;
                } else {
                    return self.backoff_max;
                }
            }
        }
        let k: u32 = if retry == 0 { 0 } else { retry - 1 };
        let factor = doubling(k);
        let initial = duration_to_nanos(&self.backoff_initial);
        assert(initial * factor < 0x1_0000_0000_0000_0000_0000_0000_0000_0000) by (nonlinear_arith)
            requires
                initial <= u64::MAX * 1_000_000_000 + 999_999_999,
                factor <= u32::MAX,
        ;
        let exp = initial * (factor as u128);
        let base = if exp < max { exp } else { max };
        let j: u32 = if self.backoff_jitter > JITTER_SCALE { JITTER_SCALE } else { self.backoff_jitter };
        assert((j as u128) * (sample as u128) < 10_000_000_000) by (nonlinear_arith)
            requires
                j <= 1_000_000,
                sample < 10_000,
        ;
        let js: u128 = (j as u128) * (sample as u128);
        assert(base * js < 0x1_0000_0000_0000_0000_0000_0000_0000_0000) by (nonlinear_arith)
            requires
                base <= u64::MAX * 1_000_000_000 + 999_999_999,
                js < 10_000_000_000,
        ;
        let cut = (base * js) / 10_000_000_000;
        assert(cut <= base) by (nonlinear_arith)
            requires
                cut == (base * js) / 10_000_000_000,
                js < 10_000_000_000,
        ;
        duration_from_nanos(base - cut)
    }

    /// Delay before retry number `retry` (1-based). An honoured `retry-after` wins,
    /// capped at `backoff_max`; otherwise the backoff, shortened by a random part of
    /// at most the jitter fraction.
    pub fn delay(&self, retry: u32, retry_after: Option<Duration>) -> (r: Duration)
        ensures
            possible_delay(*self, retry, retry_after, r),
    {
        let s = unit_sample();
        self.delay_with_sample(retry, retry_after, s)
    }

    /// What to do after attempt number `retry + 1` failed with `failure`: stop with
    /// the failure's error when it is not retryable or no retries are left, else wait
    /// and retry once more.
    pub fn after_failure(&self, retry: u32, failure: Failure) -> (r: Next)
        ensures
            (r is Stop) <==> stops_after(*self, retry as int, failure),
            r matches Next::Stop(e) ==> e == failure_error(failure),
            r matches Next::Retry { retry: next, .. } ==> next == retry + 1,
            r matches Next::Retry { retry: next, delay } ==> possible_delay(
                *self,
                next,
                failure_retry_after(failure),
                delay,
            ),
            retry < self.max_retries ==> match failure {
                Failure::Status { status, .. } => (500 <= status <= 599 || status == 408 || status == 429) ==> r is Retry,
                Failure::Transport(_) => r is Retry,
            },
            retry >= self.max_retries ==> r is Stop,
            match (failure, r) {
                (Failure::Status { status, retry_after, message }, Next::Stop(e)) => e == error_for_status(
                    status,
                    retry_after,
                    message,
                ),
                (Failure::Transport(t), Next::Stop(e)) => e == transport_error(t),
                _ => true,
            },
            match failure {
                Failure::Status { status, .. } => !(500 <= status <= 599 || status == 408 || status == 429) ==> r is Stop,
                Failure::Transport(_) => true,
            },
            self.respect_retry_after ==> match (failure, r) {
                (Failure::Status { retry_after: Some(d), .. }, Next::Retry { delay, .. }) => nanos(delay) == if nanos(d)
                    < nanos(self.backoff_max) {
                    nanos(d)
                } else {
                    nanos(self.backoff_max)
                },
                _ => true,
            },
    {
        let ghost f = failure;
        let (err, retry_after, retryable) = match failure {
            Failure::Status { status, retry_after, message } => {
                let retryable = RetryPolicy::is_retryable_status(status);
                (Error::from_status(status, retry_after, message), retry_after, retryable)
            },
            Failure::Transport(e) => (Error::from_transport(e), None, true),
        };
        assert(err == failure_error(f));
        assert(retryable == failure_retryable(f));
        assert(retry_after == failure_retry_after(f));
        if !retryable || retry >= self.max_retries {
            Next::Stop(err)
        } else {
            let next = retry + 1;
            let delay = self.delay(next, retry_after);
            Next::Retry { retry: next, delay }
        }
    }
}

/// `2^k` as `u32`, saturating at `u32::MAX`.
fn doubling(k: u32) -> (r: u32)
    ensures
        r == doubling_factor(k as nat),
{
    let mut f: u32 = 1;
    let mut i: u32 = 0;
    while i < k
        invariant
            i <= k,
            f == doubling_factor(i as nat),
        decreases k - i,
    {
        f = if f > u32::MAX / 2 { u32::MAX } else { f * 2 };
        i = i + 1;
    }
    f
}

/// `2^k`, without saturation.
pub open spec fn two_to(k: nat) -> int
    decreases k,
{
    if k == 0 { 1 } else { 2 * two_to((k - 1) as nat) }
}

proof fn lemma_two_to_monotone(k: nat)
    requires
        k <= 31,
    ensures
        1 <= two_to(k) <= two_to(31),
    decreases 31 - k,
{
    if k < 31 {
        lemma_two_to_monotone(k + 1);
        assert(two_to(k + 1) == 2 * two_to(k));
        lemma_two_to_positive(k);
    } else {
        lemma_two_to_positive(k);
    }
}

proof fn lemma_two_to_positive(k: nat)
    ensures
        two_to(k) >= 1,
    decreases k,
{
    if k > 0 {
        lemma_two_to_positive((k - 1) as nat);
    }
}

proof fn lemma_factor_exact(k: nat)
    requires
        k <= 31,
    ensures
        doubling_factor(k) == two_to(k),
    decreases k,
{
    reveal_with_fuel(two_to, 32);
    assert(two_to(31) == 0x8000_0000);
    lemma_two_to_monotone(k);
    if k > 0 {
        lemma_factor_exact((k - 1) as nat);
    }
}

proof fn lemma_factor_bounded(k: nat)
    ensures
        1 <= doubling_factor(k) <= u32::MAX,
    decreases k,
{
    if k > 0 {
        lemma_factor_bounded((k - 1) as nat);
    }
}

/// The backoff doubles from one retry to the next, up to `backoff_max`, for as
/// long as the doubling factor does not saturate (up to retry 32).
pub proof fn law_backoff_doubles(p: RetryPolicy, retry: u32)
    requires
        1 <= retry <= 31,
    ensures
        backoff_nanos(p, (retry + 1) as u32) == if 2 * backoff_nanos(p, retry) < nanos(p.backoff_max) {
            2 * backoff_nanos(p, retry)
        } else {
            nanos(p.backoff_max)
        },
{
    let k = (retry - 1) as nat;
    lemma_factor_exact(k);
    lemma_factor_exact(k + 1);
    assert(two_to(k + 1) == 2 * two_to(k));
    let b = nanos(p.backoff_initial);
    assert(b * two_to(k + 1) == 2 * (b * two_to(k))) by (nonlinear_arith)
        requires
            two_to(k + 1) == 2 * two_to(k),
    ;
}

/// The backoff never exceeds `backoff_max` and never shrinks from one retry to the next.
pub proof fn law_backoff_capped_and_monotone(p: RetryPolicy, retry: u32)
    requires
        retry < u32::MAX,
    ensures
        backoff_nanos(p, retry) <= nanos(p.backoff_max),
        backoff_nanos(p, retry) <= backoff_nanos(p, (retry + 1) as u32),
{
    let k: nat = if retry == 0 { 0 } else { (retry - 1) as nat };
    let k2: nat = retry as nat;
    lemma_factor_bounded(k);
    assert(doubling_factor(k) <= doubling_factor(k2)) by {
        if retry > 0 {
            lemma_factor_bounded(k);
            assert(doubling_factor(k2) == if 2 * doubling_factor(k) > u32::MAX { u32::MAX as int } else { 2 * doubling_factor(k) });
        }
    }
    let b = nanos(p.backoff_initial);
    assert(b >= 0);
    assert(b * doubling_factor(k) <= b * doubling_factor(k2)) by (nonlinear_arith)
        requires
            b >= 0,
            doubling_factor(k) <= doubling_factor(k2),
    ;
}

/// Jitter only shortens: for every random draw, the delay lies between the backoff
/// less its jitter fraction and the backoff itself.
pub proof fn law_jitter_only_shortens(p: RetryPolicy, retry: u32, retry_after: Option<Duration>, sample: int)
    requires
        0 <= sample < SAMPLE_RANGE,
        !(p.respect_retry_after && retry_after is Some),
    ensures
        delay_nanos(p, retry, retry_after, sample) <= backoff_nanos(p, retry),
        delay_nanos(p, retry, retry_after, sample) * JITTER_SCALE
            >= backoff_nanos(p, retry) * (JITTER_SCALE - clamped_jitter(p.backoff_jitter)),
        p.backoff_jitter == 0 ==> delay_nanos(p, retry, retry_after, sample) == backoff_nanos(p, retry),
{
    let base = backoff_nanos(p, retry);
    let j = clamped_jitter(p.backoff_jitter);
    lemma_factor_bounded(if retry == 0 { 0 } else { (retry - 1) as nat });
    assert(base >= 0) by (nonlinear_arith)
        requires
            base == (if nanos(p.backoff_initial) * doubling_factor(if retry == 0 { 0 } else { (retry - 1) as nat }) < nanos(p.backoff_max) {
                nanos(p.backoff_initial) * doubling_factor(if retry == 0 { 0 } else { (retry - 1) as nat })
            } else {
                nanos(p.backoff_max)
            }),
            nanos(p.backoff_initial) >= 0,
            nanos(p.backoff_max) >= 0,
            doubling_factor(if retry == 0 { 0 } else { (retry - 1) as nat }) >= 1,
    ;
    let cut = (base * (j * sample)) / (JITTER_SCALE * SAMPLE_RANGE);
    assert(0 <= cut && cut * JITTER_SCALE <= base * j) by (nonlinear_arith)
        requires
            base >= 0,
            0 <= j <= 1_000_000,
            0 <= sample < 10_000,
            cut == (base * (j * sample)) / 10_000_000_000int,
    ;
    if p.backoff_jitter == 0 {
        assert(j == 0);
        assert(j * sample == 0) by (nonlinear_arith)
            requires
                j == 0,
        ;
        assert(base * (j * sample) == 0) by (nonlinear_arith)
            requires
                j * sample == 0,
        ;
    }
    assert((base - cut) * JITTER_SCALE >= base * (JITTER_SCALE - j)) by (nonlinear_arith)
        requires
            cut * 1_000_000 <= base * j,
    ;
}

/// An honoured `retry-after` replaces the backoff, capped at `backoff_max`; one
/// that is not honoured changes nothing.
pub proof fn law_retry_after(p: RetryPolicy, retry: u32, d: Duration, sample: int)
    ensures
        p.respect_retry_after ==> delay_nanos(p, retry, Some(d), sample) == if nanos(d) < nanos(p.backoff_max) {
            nanos(d)
        } else {
            nanos(p.backoff_max)
        },
        !p.respect_retry_after ==> delay_nanos(p, retry, Some(d), sample) == delay_nanos(p, retry, None, sample),
{
}

/// Exactly the 2xx statuses are successes.
pub proof fn law_success_statuses(status: u16)
    ensures
        200 <= status <= 299 ==> success_status(status),
        status < 200 || status > 299 ==> !success_status(status),
{
}

/// The first retry waits the initial backoff (capped at `backoff_max`), before
/// jitter; so does a retry number of 0.
pub proof fn law_first_backoff(p: RetryPolicy)
    ensures
        backoff_nanos(p, 1) == if nanos(p.backoff_initial) < nanos(p.backoff_max) {
            nanos(p.backoff_initial)
        } else {
            nanos(p.backoff_max)
        },
        backoff_nanos(p, 0) == backoff_nanos(p, 1),
{
    assert(nanos(p.backoff_initial) * doubling_factor(0) == nanos(p.backoff_initial));
}

/// 408, 429 and every 5xx status are retried; every other status is not.
pub proof fn law_retryable_statuses(status: u16)
    ensures
        500 <= status <= 599 ==> retryable_status(status),
        status == 408 || status == 429 ==> retryable_status(status),
        status < 500 && status != 408 && status != 429 ==> !retryable_status(status),
        status > 599 ==> !retryable_status(status),
{
}

/// After a failed response, with retries left, a 408, a 429 or any 5xx is retried;
/// and when the response carried a `retry-after` that the policy honours, every
/// wait that may follow is that `retry-after`, capped at `backoff_max`, whatever
/// the status.
pub proof fn law_status_failure_retried(
    p: RetryPolicy,
    retry: u32,
    status: u16,
    retry_after: Option<Duration>,
    message: String,
    delay: Duration,
)
    ensures
        retry < p.max_retries && (500 <= status <= 599 || status == 408 || status == 429) ==> !stops_after(
            p,
            retry as int,
            Failure::Status { status, retry_after, message },
        ),
        p.respect_retry_after && retry_after is Some && possible_delay(
            p,
            (retry + 1) as u32,
            failure_retry_after(Failure::Status { status, retry_after, message }),
            delay,
        ) ==> nanos(delay) == if nanos(retry_after->0) < nanos(p.backoff_max) {
            nanos(retry_after->0)
        } else {
            nanos(p.backoff_max)
        },
{
}

/// A run makes at most `max_retries + 1` attempts, whatever its failures; when
/// every failure is retryable and there are enough of them, it makes exactly that many.
pub proof fn law_attempts_bounded(p: RetryPolicy, failures: Seq<Failure>)
    ensures
        attempts_from(p, failures, 0) <= p.max_retries + 1,
        (forall|i: int| 0 <= i < failures.len() ==> failure_retryable(#[trigger] failures[i]))
            && failures.len() > p.max_retries ==> attempts_from(p, failures, 0) == p.max_retries + 1,
{
    lemma_attempts_from(p, failures, 0);
}

proof fn lemma_attempts_from(p: RetryPolicy, failures: Seq<Failure>, retry: int)
    requires
        0 <= retry <= p.max_retries,
    ensures
        attempts_from(p, failures, retry) <= p.max_retries + 1 - retry,
        (forall|i: int| 0 <= i < failures.len() ==> failure_retryable(#[trigger] failures[i]))
            && failures.len() > p.max_retries - retry ==> attempts_from(p, failures, retry) == p.max_retries + 1 - retry,
    decreases failures.len(),
{
    if failures.len() > 0 && !stops_after(p, retry, failures[0]) {
        lemma_attempts_from(p, failures.drop_first(), retry + 1);
        if forall|i: int| 0 <= i < failures.len() ==> failure_retryable(#[trigger] failures[i]) {
            assert forall|i: int| 0 <= i < failures.drop_first().len() implies failure_retryable(#[trigger] failures.drop_first()[i]) by {
                assert(failures.drop_first()[i] == failures[i + 1]);
            }
        }
    }
}

impl Default for RetryPolicy {
    /// Two retries, 0.5 s doubling to at most 5 s, a quarter of jitter, honouring `retry-after`.
    fn default() -> (r: RetryPolicy)
        ensures
            r.max_retries == 2,
            nanos(r.backoff_initial) == 500_000_000,
            nanos(r.backoff_max) == 5_000_000_000,
            r.backoff_jitter == 250_000,
            r.respect_retry_after,
    {
        RetryPolicy {
            max_retries: 2,
            backoff_initial: millis(500),
            backoff_max: seconds(5),
            backoff_jitter: 250_000,
            respect_retry_after: true,
        }
    }
}

} // verus!

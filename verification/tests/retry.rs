use std::time::Duration;

use typesafe_systemone::client::error_message;
use typesafe_systemone::retry::sample_from_seed;
use typesafe_systemone::{Error, Failure, Next, RetryPolicy};

#[test]
fn retryable_statuses() {
    for s in [408, 429, 500, 502, 529, 599] {
        assert!(RetryPolicy::is_retryable_status(s), "{s}");
    }
    for s in [200, 400, 401, 403, 404, 422] {
        assert!(!RetryPolicy::is_retryable_status(s), "{s}");
    }
}

#[test]
fn backoff_doubles_and_caps() {
    let p = RetryPolicy { backoff_jitter: 0, ..RetryPolicy::default() };
    assert_eq!(p.delay(1, None), Duration::from_millis(500));
    assert_eq!(p.delay(2, None), Duration::from_millis(1000));
    assert_eq!(p.delay(3, None), Duration::from_millis(2000));
    assert_eq!(p.delay(10, None), Duration::from_secs(5));
}

#[test]
fn jitter_only_shortens() {
    let p = RetryPolicy::default();
    for _ in 0..50 {
        let d = p.delay(1, None);
        assert!(d <= Duration::from_millis(500) && d >= Duration::from_millis(375), "{d:?}");
    }
}

#[test]
fn retry_after_wins_when_respected() {
    let p = RetryPolicy::default();
    assert_eq!(p.delay(1, Some(Duration::from_secs(3))), Duration::from_secs(3));
    let p = RetryPolicy { respect_retry_after: false, backoff_jitter: 0, ..RetryPolicy::default() };
    assert_eq!(p.delay(1, Some(Duration::from_secs(3))), Duration::from_millis(500));
}

#[test]
fn retry_after_is_capped_at_backoff_max() {
    let p = RetryPolicy::default();
    assert_eq!(p.delay(1, Some(Duration::from_secs(60))), Duration::from_secs(5));
    assert_eq!(p.delay(1, Some(Duration::ZERO)), Duration::ZERO);
}

#[test]
fn defaults_and_none() {
    let p = RetryPolicy::default();
    assert_eq!(p.max_retries, 2);
    assert_eq!(p.backoff_initial, Duration::from_millis(500));
    assert_eq!(p.backoff_max, Duration::from_secs(5));
    assert_eq!(p.backoff_jitter, 250_000);
    assert!(p.respect_retry_after);
    let n = RetryPolicy::none();
    assert_eq!(n, RetryPolicy { max_retries: 0, ..RetryPolicy::default() });
}

#[test]
fn delay_with_sample_is_exact() {
    let p = RetryPolicy::default();
    assert_eq!(p.delay_with_sample(1, None, 0), Duration::from_millis(500));
    // 500 ms less 500 ms * 0.25 * 0.5
    assert_eq!(p.delay_with_sample(1, None, 5_000), Duration::from_micros(437_500));
    let full = RetryPolicy { backoff_jitter: 2_000_000, ..RetryPolicy::default() };
    assert_eq!(full.delay_with_sample(2, None, 9_999), Duration::from_nanos(100_000));
    let wide = RetryPolicy { backoff_initial: Duration::from_secs(1), backoff_max: Duration::MAX, backoff_jitter: 0, ..RetryPolicy::default() };
    assert_eq!(wide.delay_with_sample(40, None, 0), Duration::from_secs(u64::from(u32::MAX)));
    assert_eq!(wide.delay_with_sample(0, None, 0), Duration::from_secs(1));
}

#[test]
fn samples_are_in_range_and_repeatable() {
    for seed in [0u64, 1, 999_999_999, u64::MAX] {
        let s = sample_from_seed(seed);
        assert!(s < 10_000);
        assert_eq!(s, sample_from_seed(seed));
    }
    assert_ne!(sample_from_seed(1), sample_from_seed(2));
}

fn status(status: u16, retry_after: Option<Duration>, message: &str) -> Failure {
    Failure::Status { status, retry_after, message: message.to_string() }
}

#[test]
fn unauthorized_maps_to_authentication_and_is_not_retried() {
    let p = RetryPolicy::default();
    let message = error_message(r#"{"detail": "Invalid API key"}"#.to_string());
    let failure = Failure::Status { status: 401, retry_after: None, message };
    match p.after_failure(0, failure) {
        Next::Stop(err) => {
            assert!(matches!(err, Error::Authentication { ref message } if message == "Invalid API key"), "{err:?}");
            assert_eq!(err.status(), Some(401));
        }
        Next::Retry { .. } => panic!("401 was retried"),
    }
}

#[test]
fn unprocessable_entity_is_not_retried() {
    let p = RetryPolicy::default();
    assert!(matches!(
        p.after_failure(0, status(422, None, "criteria must have at least two levels")),
        Next::Stop(Error::UnprocessableEntity { .. })
    ));
}

#[test]
fn rate_limit_is_retried_then_succeeds() {
    let p = RetryPolicy::default();
    match p.after_failure(0, status(429, Some(Duration::ZERO), "slow down")) {
        Next::Retry { retry, delay } => {
            assert_eq!(retry, 1);
            assert_eq!(delay, Duration::ZERO);
        }
        Next::Stop(e) => panic!("{e:?}"),
    }
}

#[test]
fn overloaded_exhausts_retries_and_surfaces_retry_after() {
    let p = RetryPolicy::default();
    let mut retry = 0;
    let mut attempts = 1;
    loop {
        match p.after_failure(retry, status(529, Some(Duration::ZERO), "overloaded")) {
            Next::Retry { retry: r, .. } => {
                retry = r;
                attempts += 1;
            }
            Next::Stop(err) => {
                assert!(matches!(err, Error::Overloaded { retry_after: Some(d), .. } if d.is_zero()), "{err:?}");
                break;
            }
        }
    }
    assert_eq!(attempts, 3);
}

#[test]
fn retry_none_makes_one_attempt() {
    let p = RetryPolicy::none();
    assert!(matches!(p.after_failure(0, status(503, None, "down")), Next::Stop(Error::Server { status: 503, .. })));
}

#[test]
fn transport_failures_are_retried() {
    let err = reqwest::Client::new().get("not a url").build().unwrap_err();
    let p = RetryPolicy::default();
    match p.after_failure(1, Failure::Transport(err)) {
        Next::Retry { retry, delay } => {
            assert_eq!(retry, 2);
            assert!(delay <= Duration::from_millis(1000) && delay >= Duration::from_millis(750), "{delay:?}");
        }
        Next::Stop(e) => panic!("{e:?}"),
    }
}

#[test]
fn success_statuses() {
    assert!(RetryPolicy::is_success_status(200));
    assert!(RetryPolicy::is_success_status(299));
    assert!(!RetryPolicy::is_success_status(300));
    assert!(!RetryPolicy::is_success_status(199));
}

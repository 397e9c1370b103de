use mental_os::circuit_breaker::{CircuitBreaker, CircuitBreakerConfig, CircuitState};

#[test]
fn circuit_breaker_starts_closed() {
    let mut cb = CircuitBreaker::with_defaults("test".to_string());
    assert_eq!(cb.state(), CircuitState::Closed);
    assert!(cb.allow_request().is_ok());
}

#[test]
fn circuit_breaker_opens_after_threshold_failures() {
    let mut cb = CircuitBreaker::new(
        "test".to_string(),
        CircuitBreakerConfig {
            failure_threshold: 3,
            cooldown_ms: 30_000,
            half_open_success_threshold: 1,
        },
    );

    cb.record_failure();
    cb.record_failure();
    assert_eq!(cb.state(), CircuitState::Closed);
    assert!(cb.allow_request().is_ok());

    cb.record_failure();
    assert_eq!(cb.state(), CircuitState::Open);
    assert!(cb.allow_request().is_err());
}

#[test]
fn circuit_breaker_success_resets_failures() {
    let mut cb = CircuitBreaker::new(
        "test".to_string(),
        CircuitBreakerConfig {
            failure_threshold: 3,
            cooldown_ms: 30_000,
            half_open_success_threshold: 1,
        },
    );

    cb.record_failure();
    cb.record_failure();
    cb.record_success();
    cb.record_failure();
    assert_eq!(cb.state(), CircuitState::Closed);
}

#[test]
fn circuit_breaker_reset_returns_to_closed() {
    let mut cb = CircuitBreaker::with_defaults("test".to_string());
    cb.record_failure();
    cb.record_failure();
    cb.record_failure();
    assert_eq!(cb.state(), CircuitState::Open);

    cb.reset();
    assert_eq!(cb.state(), CircuitState::Closed);
    assert!(cb.allow_request().is_ok());
}

fn breaker(threshold: u32, cooldown_secs: u64, successes: u32) -> CircuitBreaker {
    CircuitBreaker::new(
        "zen".to_string(),
        CircuitBreakerConfig {
            failure_threshold: threshold,
            cooldown_ms: cooldown_secs * 1000,
            half_open_success_threshold: successes,
        },
    )
}

#[test]
fn open_breaker_reports_remaining_cooldown() {
    let mut cb = breaker(1, 30, 1);
    cb.record_failure_at(1_000_000);
    assert_eq!(cb.state(), CircuitState::Open);
    let err = cb.allow_request_at(1_012_500).unwrap_err();
    assert_eq!(
        err,
        "Provider 'zen' is temporarily unavailable (circuit breaker open, 18s remaining in cooldown)"
    );
    assert_eq!(cb.state(), CircuitState::Open);
}

#[test]
fn cooldown_elapsed_moves_to_half_open_then_closes() {
    let mut cb = breaker(2, 30, 1);
    cb.record_failure_at(5_000);
    cb.record_failure_at(6_000);
    assert_eq!(cb.state(), CircuitState::Open);
    assert_eq!(cb.failure_count(), 2);
    assert!(cb.allow_request_at(35_999).is_err());
    assert!(cb.allow_request_at(36_000).is_ok());
    assert_eq!(cb.state(), CircuitState::HalfOpen);
    cb.record_success();
    assert_eq!(cb.state(), CircuitState::Closed);
    assert_eq!(cb.failure_count(), 0);
}

#[test]
fn half_open_failure_reopens() {
    let mut cb = breaker(1, 10, 2);
    cb.record_failure_at(100);
    assert!(cb.allow_request_at(10_100).is_ok());
    assert_eq!(cb.state(), CircuitState::HalfOpen);
    cb.record_success();
    // two successes are needed
    assert_eq!(cb.state(), CircuitState::HalfOpen);
    cb.record_failure_at(20_000);
    assert_eq!(cb.state(), CircuitState::Open);
    assert!(cb.allow_request_at(20_001).is_err());
}

#[test]
fn failures_while_open_keep_counting() {
    let mut cb = breaker(1, 10, 1);
    cb.record_failure_at(100);
    cb.record_failure_at(200);
    cb.record_failure_at(300);
    assert_eq!(cb.failure_count(), 3);
    assert_eq!(cb.provider_name(), "zen");
    assert_eq!(CircuitBreaker::millis_since(5, 9), 0);
    assert_eq!(CircuitBreaker::millis_since(9, 5), 4);
}

#[test]
fn half_open_lets_a_single_trial_through() {
    let mut cb = breaker(1, 10, 2);
    cb.record_failure_at(100);
    assert!(cb.allow_request_at(10_100).is_ok());
    assert_eq!(cb.state(), CircuitState::HalfOpen);
    assert_eq!(
        cb.allow_request_at(10_200).unwrap_err(),
        "Provider 'zen' is temporarily unavailable (circuit breaker half-open, trial request in progress)"
    );
    cb.record_success();
    assert_eq!(cb.state(), CircuitState::HalfOpen);
    assert!(cb.allow_request_at(10_300).is_ok());
    assert!(cb.allow_request_at(10_400).is_err());
    cb.record_success();
    assert_eq!(cb.state(), CircuitState::Closed);
    assert!(cb.allow_request_at(10_500).is_ok());
}

#[test]
fn default_breaker_has_thirty_second_cooldown() {
    let mut cb = CircuitBreaker::with_defaults("test".to_string());
    assert_eq!(cb.provider_name(), "test");
    assert_eq!(cb.failure_count(), 0);
    cb.record_failure_at(1_000);
    cb.record_failure_at(2_000);
    cb.record_failure_at(3_000);
    assert!(cb.allow_request_at(32_999).is_err());
    assert!(cb.allow_request_at(33_000).is_ok());
    assert_eq!(CircuitBreakerConfig::default().cooldown_ms, 30_000);
}

use ai_gateway::circuit::breaker::CircuitBreaker;
use ai_gateway::circuit::config::{CircuitConfig, CircuitTriggerConfig, HalfOpenConfig, TriggerKind, PPM};
use ai_gateway::circuit::registry::CircuitBreakerRegistry;
use ai_gateway::circuit::state::{CircuitState, OpenReason};
use ai_gateway::circuit::window::{SlidingWindow, WindowEvent};

fn failover_config() -> CircuitConfig {
    CircuitConfig {
        cooldown_ms: 30_000,
        half_open: HalfOpenConfig { max_probes: 2, success_rate_ppm: PPM / 2, max_concurrent_probes: 1 },
        triggers: vec![CircuitTriggerConfig {
            name: "consecutiveFailures".into(),
            kind: TriggerKind::ConsecutiveFailures,
            window_ms: 60_000,
            threshold_ppm: 2 * PPM,
        }],
        ..Default::default()
    }
}

#[test]
fn breaker_starts_closed() {
    let mut breaker = CircuitBreaker::new("model:test", failover_config());
    assert_eq!(breaker.state(), CircuitState::Closed);
    assert!(breaker.allow().is_ok());
}

#[test]
fn consecutive_failures_open_breaker() {
    let mut breaker = CircuitBreaker::new("model:test", failover_config());
    assert!(breaker.allow().is_ok());
    breaker.on_success();
    breaker.on_failure();
    breaker.on_failure();
    assert!(matches!(breaker.state(), CircuitState::Open { reason: OpenReason::ConsecutiveFailures, .. }));
    assert!(breaker.allow().is_err());
}

#[test]
fn half_open_recovery() {
    let config = CircuitConfig {
        cooldown_ms: 1,
        half_open: HalfOpenConfig { max_probes: 2, success_rate_ppm: PPM / 2, max_concurrent_probes: 1 },
        triggers: vec![CircuitTriggerConfig {
            name: "consecutiveFailures".into(),
            kind: TriggerKind::ConsecutiveFailures,
            window_ms: 60_000,
            threshold_ppm: PPM,
        }],
        ..Default::default()
    };
    let mut breaker = CircuitBreaker::new("model:test", config);
    let t0: i64 = 1_700_000_000_000;
    breaker.on_failure_at(t0, t0);
    assert!(matches!(breaker.state(), CircuitState::Open { .. }));
    // The cooldown has passed 10 ms later.
    assert!(breaker.allow_at(t0 + 10).is_ok());
    assert!(matches!(breaker.state(), CircuitState::HalfOpen { .. }));
    breaker.on_success_at(t0 + 11, t0 + 11);
    breaker.on_success_at(t0 + 12, t0 + 12);
    assert_eq!(breaker.state(), CircuitState::Closed);
}

#[test]
fn error_rate_trigger_opens() {
    let config = CircuitConfig {
        triggers: vec![CircuitTriggerConfig {
            name: "errorRate".into(),
            kind: TriggerKind::ErrorRate,
            window_ms: 60_000,
            threshold_ppm: PPM / 2,
        }],
        ..Default::default()
    };
    let mut breaker = CircuitBreaker::new("model:test", config);
    breaker.on_failure();
    breaker.on_failure();
    breaker.on_failure();
    breaker.on_success();
    assert!(matches!(breaker.state(), CircuitState::Open { reason: OpenReason::ErrorRate, .. }));
}

#[test]
fn open_breaker_refuses_until_its_cooldown_ends() {
    let mut breaker = CircuitBreaker::new("model:test", failover_config());
    let t0: i64 = 1_000_000;
    breaker.on_failure_at(t0, t0);
    breaker.on_failure_at(t0 + 1, t0 + 1);
    assert_eq!(
        breaker.state(),
        CircuitState::Open {
            opened_at: t0 + 1,
            reason: OpenReason::ConsecutiveFailures,
            trigger: "consecutiveFailures".into(),
            cooldown_until: t0 + 1 + 30_000,
        }
    );
    let refused = breaker.allow_at(t0 + 29_000).unwrap_err();
    assert_eq!(refused.reason, OpenReason::ConsecutiveFailures);
    assert_eq!(refused.message(), "circuit breaker is open: key=model:test, reason=ConsecutiveFailures, trigger=consecutiveFailures");
    assert!(breaker.allow_at(t0 + 1 + 30_000).is_ok());
    assert!(matches!(breaker.state(), CircuitState::HalfOpen { in_flight_probes: 1, .. }));
}

#[test]
fn failed_probe_reopens_the_breaker() {
    let mut breaker = CircuitBreaker::new("model:test", failover_config());
    breaker.on_failure_at(0, 0);
    breaker.on_failure_at(1, 1);
    assert!(breaker.allow_at(40_000).is_ok());
    breaker.on_failure_at(40_001, 40_001);
    assert_eq!(
        breaker.state(),
        CircuitState::Open {
            opened_at: 40_001,
            reason: OpenReason::HalfOpenFailed,
            trigger: "halfOpen".into(),
            cooldown_until: 40_001 + 30_000,
        }
    );
}

#[test]
fn success_resets_consecutive_failures() {
    let mut breaker = CircuitBreaker::new("model:test", failover_config());
    breaker.on_failure_at(0, 0);
    breaker.on_success_at(1, 1);
    breaker.on_failure_at(2, 2);
    assert_eq!(breaker.state(), CircuitState::Closed);
}

#[test]
fn timeout_rate_trigger_opens() {
    let config = CircuitConfig {
        triggers: vec![CircuitTriggerConfig {
            name: "timeouts".into(),
            kind: TriggerKind::TimeoutRate,
            window_ms: 60_000,
            threshold_ppm: PPM / 2,
        }],
        ..Default::default()
    };
    let mut breaker = CircuitBreaker::new("model:test", config);
    breaker.on_timeout_at(10, 10);
    assert!(matches!(breaker.state(), CircuitState::Open { reason: OpenReason::TimeoutRate, .. }));
}

#[test]
fn sliding_window_forgets_old_events() {
    let mut window = SlidingWindow::with_bucket_size(10_000, 1_000);
    window.record_at(WindowEvent::Failure, 0);
    window.record_at(WindowEvent::Success, 500);
    window.record_at(WindowEvent::Timeout, 5_000);
    window.record_at(WindowEvent::SafetyViolation, 5_200);
    let totals = window.totals_at(5_500);
    assert_eq!((totals.requests, totals.failures, totals.timeouts, totals.safety_violations), (4, 1, 1, 1));
    let later = window.totals_at(12_000);
    assert_eq!((later.requests, later.failures, later.timeouts, later.safety_violations), (2, 0, 1, 1));
}

#[test]
fn registry_creates_one_breaker_per_key() {
    let mut registry = CircuitBreakerRegistry::new(failover_config());
    registry.get_or_create("model:a").on_failure_at(0, 0);
    registry.get_or_create("model:a").on_failure_at(1, 1);
    registry.get_or_create("model:b");
    assert!(matches!(registry.get("model:a").unwrap().state(), CircuitState::Open { .. }));
    assert_eq!(registry.get("model:b").unwrap().state(), CircuitState::Closed);
    let snapshot = registry.snapshot();
    assert_eq!(snapshot.len(), 2);
    assert!(registry.remove("model:a").is_some());
    assert!(registry.get("model:a").is_none());
}

#[test]
fn half_open_limits_concurrent_probes() {
    let mut breaker = CircuitBreaker::new("model:test", failover_config());
    breaker.on_failure_at(0, 0);
    breaker.on_failure_at(1, 1);
    assert!(breaker.allow_at(40_000).is_ok());
    let refused = breaker.allow_at(40_001).unwrap_err();
    assert_eq!(refused.key, "model:test");
    assert_eq!(refused.reason, OpenReason::HalfOpenFailed);
    assert_eq!(refused.trigger, "halfOpen");
    assert!(matches!(
        breaker.state(),
        CircuitState::HalfOpen { max_probes: 2, in_flight_probes: 1, completed_probes: 0, succeeded_probes: 0, .. }
    ));
}

#[test]
fn each_recorded_event_counts_once_under_its_kind() {
    let mut window = SlidingWindow::with_bucket_size(60_000, 1_000);
    let events = [
        WindowEvent::Success,
        WindowEvent::Failure,
        WindowEvent::Timeout,
        WindowEvent::SafetyViolation,
        WindowEvent::Failure,
    ];
    let mut expected = (0u64, 0u64, 0u64, 0u64);
    for (i, event) in events.iter().enumerate() {
        window.record_at(*event, 700 * i as i64);
        expected.0 += 1;
        match event {
            WindowEvent::Failure => expected.1 += 1,
            WindowEvent::Timeout => expected.2 += 1,
            WindowEvent::SafetyViolation => expected.3 += 1,
            WindowEvent::Success => {},
        }
        let t = window.totals_at(700 * i as i64);
        assert_eq!((t.requests, t.failures, t.timeouts, t.safety_violations), expected);
        assert!(t.failures + t.timeouts + t.safety_violations <= t.requests);
    }
}

#[test]
fn only_buckets_within_the_window_are_counted() {
    let mut window = SlidingWindow::with_bucket_size(2_000, 1_000);
    window.record_at(WindowEvent::Failure, 0);
    window.record_at(WindowEvent::Failure, 1_000);
    window.record_at(WindowEvent::Failure, 2_000);
    assert_eq!(window.totals_at(2_000).requests, 3);
    assert_eq!(window.totals_at(3_000).requests, 2);
    assert_eq!(window.totals_at(4_000).requests, 1);
    assert_eq!(window.totals_at(4_001).requests, 0);
}

#[test]
fn windows_age_on_their_own_clock() {
    let config = CircuitConfig {
        triggers: vec![CircuitTriggerConfig {
            name: "errorRate".into(),
            kind: TriggerKind::ErrorRate,
            window_ms: 60_000,
            threshold_ppm: PPM,
        }],
        ..Default::default()
    };
    let mut breaker = CircuitBreaker::new("model:test", config);
    breaker.on_success_at(0, 0);
    // The wall clock jumps a day ahead; the windows, a millisecond.
    breaker.on_failure_at(86_400_000, 1);
    assert_eq!(breaker.state(), CircuitState::Closed);
    // Once the window has let the earlier events go, the newest failure alone trips it.
    breaker.on_failure_at(86_400_001, 61_000);
    match breaker.state() {
        CircuitState::Open { reason, opened_at, cooldown_until, .. } => {
            assert_eq!(reason, OpenReason::ErrorRate);
            assert_eq!((opened_at, cooldown_until), (86_400_001, 86_430_001));
        },
        other => panic!("expected an open breaker, got {other:?}"),
    }
}

#[test]
fn window_clock_forms_count_what_was_just_recorded() {
    let mut window = SlidingWindow::new(60_000);
    window.record(WindowEvent::Failure);
    window.record(WindowEvent::Success);
    let t = window.totals();
    assert_eq!((t.requests, t.failures, t.timeouts, t.safety_violations), (2, 1, 0, 0));
}

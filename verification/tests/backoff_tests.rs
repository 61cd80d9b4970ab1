use notifiapp_transport::ws::client::action::Action;
use notifiapp_transport::ws::client::config::{default_backoff, WsClientConfig};
use notifiapp_transport::ws::client::connection_loop::{
    ClientEvent, ConnectionLoop, Surroundings,
};
use notifiapp_transport::ws::{
    BackoffStrategy, ConstantBackoff, ExponentialBackoff, LinearBackoff,
};
use std::time::Duration;

#[test]
fn test_constant_backoff() {
    let strategy = ConstantBackoff::new(Duration::from_secs(5));
    assert_eq!(strategy.next_delay(0), Duration::from_secs(5));
    assert_eq!(strategy.next_delay(1), Duration::from_secs(5));
    assert_eq!(strategy.next_delay(10), Duration::from_secs(5));
}

#[test]
fn test_linear_backoff() {
    let strategy = LinearBackoff::new(
        Duration::from_secs(2),
        Duration::from_secs(3),
        Duration::from_secs(10),
    );
    assert_eq!(strategy.next_delay(0), Duration::from_secs(0));
    assert_eq!(strategy.next_delay(1), Duration::from_secs(2)); // initial
    assert_eq!(strategy.next_delay(2), Duration::from_secs(5)); // initial + step
    assert_eq!(strategy.next_delay(3), Duration::from_secs(8)); // initial + 2*step
    assert_eq!(strategy.next_delay(4), Duration::from_secs(10)); // max delay capped
    assert_eq!(strategy.next_delay(10), Duration::from_secs(10)); // capped
}

#[test]
fn test_exponential_backoff() {
    let strategy = ExponentialBackoff::new(Duration::from_secs(2), 2, Duration::from_secs(15));
    assert_eq!(strategy.next_delay(0), Duration::from_secs(0));
    assert_eq!(strategy.next_delay(1), Duration::from_secs(2)); // 2 * 2^0
    assert_eq!(strategy.next_delay(2), Duration::from_secs(4)); // 2 * 2^1
    assert_eq!(strategy.next_delay(3), Duration::from_secs(8)); // 2 * 2^2
    assert_eq!(strategy.next_delay(4), Duration::from_secs(15)); // capped (16 -> 15)
    assert_eq!(strategy.next_delay(10), Duration::from_secs(15)); // capped
}

#[test]
fn large_attempts_stay_at_the_limit() {
    let max = Duration::from_secs(60);
    let step = Duration::from_millis(1);
    let linear = LinearBackoff::new(step, step, max);
    assert_eq!(linear.next_delay(1000), Duration::from_secs(1));
    assert_eq!(linear.next_delay(u32::MAX), max);
    let huge = LinearBackoff::new(Duration::MAX, Duration::MAX, Duration::MAX);
    assert_eq!(huge.next_delay(u32::MAX), Duration::MAX);
    let exponential = ExponentialBackoff::new(step, 3, max);
    assert_eq!(exponential.next_delay(3), Duration::from_millis(9));
    assert_eq!(exponential.next_delay(u32::MAX), max);
    assert_eq!(ExponentialBackoff::new(step, 1, max).next_delay(u32::MAX), step);
    assert_eq!(ExponentialBackoff::new(step, 0, max).next_delay(1), step);
    assert_eq!(ExponentialBackoff::new(step, 0, max).next_delay(2), Duration::ZERO);
    let widest = ExponentialBackoff::new(Duration::MAX, u32::MAX, Duration::MAX);
    assert_eq!(widest.next_delay(5), Duration::MAX);
}

#[test]
fn an_initial_delay_beyond_the_limit_is_cut() {
    let strategy = ExponentialBackoff::new(Duration::from_secs(20), 2, Duration::from_secs(15));
    assert_eq!(strategy.next_delay(1), Duration::from_secs(15));
}

#[test]
fn delays_do_not_shrink() {
    let strategy = default_backoff();
    for attempt in 1..20 {
        assert!(strategy.next_delay(attempt) <= strategy.next_delay(attempt + 1));
    }
    assert_eq!(strategy.next_delay(1), Duration::from_secs(2));
    assert_eq!(strategy.next_delay(5), Duration::from_secs(32));
    assert_eq!(strategy.next_delay(6), Duration::from_secs(60));
}

/// A strategy of the application's own.
struct Countdown;

impl BackoffStrategy for Countdown {
    fn next_delay(&self, attempt: u32) -> Duration {
        Duration::from_millis(if attempt < 3 { 0 } else { 7 })
    }
}

#[test]
fn a_loop_follows_any_strategy() {
    let mut client = ConnectionLoop::new(WsClientConfig::new("P", "1"), Countdown);
    let around = Surroundings {
        endpoint: Some("ws://127.0.0.1:9000".to_string()),
        auto_reconnect: true,
        cancelled: false,
    };
    let mut actions = client.step(&around, ClientEvent::Start);
    for attempt in 1..3u32 {
        assert!(matches!(actions.last(), Some(Action::Open(_))));
        actions = client.step(&around, ClientEvent::OpenFailed("no".to_string()));
        assert_eq!(client.attempt(), attempt);
    }
    assert!(matches!(actions.last(), Some(Action::Open(_))));
    actions = client.step(&around, ClientEvent::OpenFailed("no".to_string()));
    assert!(
        matches!(actions.last(), Some(Action::Wait(d)) if *d == Duration::from_millis(7))
    );
}

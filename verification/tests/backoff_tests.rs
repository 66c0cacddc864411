use channel_metrics::backoff::{BackoffPolicy, PollDecision};
use channel_metrics::config::RunConfig;

fn policy(base: u64, cap: u64, attempts: u64) -> BackoffPolicy {
    BackoffPolicy { base_delay_ms: base, max_delay_ms: cap, max_attempts: attempts }
}

#[test]
fn delay_doubles_until_the_cap() {
    let p = policy(100, 1600, 10);
    assert_eq!(p.delay_for(0), 100);
    assert_eq!(p.delay_for(1), 200);
    assert_eq!(p.delay_for(2), 400);
    assert_eq!(p.delay_for(4), 1600);
    assert_eq!(p.delay_for(5), 1600);
    assert_eq!(p.delay_for(63), 1600);
}

#[test]
fn zero_base_delay_stays_zero() {
    let p = policy(0, 1000, 3);
    assert_eq!(p.delay_for(0), 0);
    assert_eq!(p.delay_for(7), 0);
}

#[test]
fn base_above_the_cap_is_clipped() {
    let p = policy(5000, 1000, 3);
    assert_eq!(p.delay_for(0), 1000);
    assert_eq!(p.delay_for(1), 1000);
}

#[test]
fn poll_gives_up_exactly_when_the_budget_is_spent() {
    let p = policy(100, 1600, 3);
    assert_eq!(p.next_poll(0), PollDecision::RetryAfter(100));
    assert_eq!(p.next_poll(2), PollDecision::RetryAfter(400));
    assert_eq!(p.next_poll(3), PollDecision::GiveUp);
    assert_eq!(p.next_poll(4), PollDecision::GiveUp);
}

#[test]
fn run_defaults_match_the_documented_configuration() {
    let c = RunConfig::new("out".to_string());
    assert_eq!(c.output_dir, "out");
    assert_eq!(c.max_retry, 3);
    assert_eq!(c.max_concurrent, 10);
    assert_eq!(c.batch_size, 100);
    assert_eq!(c.max_items, 5000);
    assert!(!c.download);
}

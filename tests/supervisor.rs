use sentinel::supervisor::{Decision, RetryPolicy, RECONNECT_DELAY_MS};

#[test]
fn fixed_policy_restarts_after_five_seconds() {
    let p = RetryPolicy::fixed();
    assert_eq!(RECONNECT_DELAY_MS, 5000);
    assert_eq!(p.decide(1), Decision::Restart { after_ms: 5000 });
    assert_eq!(p.decide(1000), Decision::Restart { after_ms: 5000 });
}

#[test]
fn bounded_policy_gives_up() {
    let p = RetryPolicy { delay_ms: 10, max_failures: Some(3) };
    assert_eq!(p.decide(2), Decision::Restart { after_ms: 10 });
    assert_eq!(p.decide(3), Decision::GiveUp);
}

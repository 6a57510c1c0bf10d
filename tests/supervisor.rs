use portfolio_telemetry::supervisor::{Phase, RetryPolicy, Step, Supervisor};

#[test]
fn two_failures_then_success_sleeps_initial_plus_double() {
    let mut sup = Supervisor::new(RetryPolicy::standard());
    let mut slept: u64 = 0;
    let outcomes = [false, false, true];
    let mut last = Step::GiveUp;
    for ok in outcomes {
        last = sup.on_outcome(ok);
        if let Step::Retry { delay_ms, .. } = last {
            slept += delay_ms;
        }
    }
    assert_eq!(last, Step::Ready);
    assert_eq!(slept, 1500);
    assert_eq!(sup.phase, Phase::Ready);
}

#[test]
fn backoff_doubles_up_to_cap_then_gives_up() {
    let mut sup = Supervisor::new(RetryPolicy::standard());
    let expected = [500u64, 1000, 2000, 4000, 5000, 5000, 5000, 5000, 5000];
    for (k, delay) in expected.iter().enumerate() {
        let step = sup.on_outcome(false);
        assert_eq!(step, Step::Retry { delay_ms: *delay, attempt: (k + 2) as u32 });
    }
    assert_eq!(sup.on_outcome(false), Step::GiveUp);
    assert_eq!(sup.phase, Phase::Failed);
    assert_eq!(sup.failures, 10);
    // No further attempts once it has given up, whatever is reported.
    assert_eq!(sup.on_outcome(true), Step::GiveUp);
    assert_eq!(sup.on_outcome(false), Step::GiveUp);
    assert_eq!(sup.failures, 10);
}

#[test]
fn initial_above_cap_is_capped() {
    let policy = RetryPolicy { initial_backoff_ms: 800, max_backoff_ms: 300, max_attempts: 3 };
    let mut sup = Supervisor::new(policy);
    assert_eq!(sup.on_outcome(false), Step::Retry { delay_ms: 300, attempt: 2 });
    assert_eq!(sup.on_outcome(false), Step::Retry { delay_ms: 300, attempt: 3 });
    assert_eq!(sup.on_outcome(false), Step::GiveUp);
}

#[test]
fn ready_stays_ready() {
    let mut sup = Supervisor::new(RetryPolicy::standard());
    assert_eq!(sup.on_outcome(true), Step::Ready);
    assert_eq!(sup.on_outcome(false), Step::Ready);
    assert_eq!(sup.failures, 0);
}

#[test]
fn huge_backoff_saturates_at_cap() {
    let policy = RetryPolicy { initial_backoff_ms: u64::MAX / 2 + 1, max_backoff_ms: u64::MAX, max_attempts: 4 };
    let mut sup = Supervisor::new(policy);
    assert_eq!(sup.on_outcome(false), Step::Retry { delay_ms: u64::MAX / 2 + 1, attempt: 2 });
    assert_eq!(sup.on_outcome(false), Step::Retry { delay_ms: u64::MAX, attempt: 3 });
}

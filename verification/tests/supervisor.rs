use mcp_tools::lsp_cpp::supervisor::{
    RestartReason, RetryDecision, SupervisorPolicy, SupervisorState, HEALTHY_UPTIME_RESET_NS,
    INITIAL_BACKOFF_NS, MAX_RESTARTS_IN_WINDOW, RESTART_WINDOW_NS,
};

const MS: u128 = 1_000_000;
const SEC: u128 = 1_000_000_000;
const SEC_NS: u64 = 1_000_000_000;

#[test]
fn backoff_curve_doubles_then_caps_at_16s() {
    let mut now: u128 = 0;
    let mut sup = SupervisorPolicy::new();
    sup.record_spawn(now);
    assert_eq!(*sup.current_state(), SupervisorState::Running);

    sup.record_exit(RestartReason::ChildSignaled { signal: 9 }, now);
    assert_eq!(
        *sup.current_state(),
        SupervisorState::Backoff { duration_ns: SEC_NS },
        "first crash should yield 1 s backoff"
    );

    let expected = [2u64, 4, 8, 16, 16];
    for (i, secs) in expected.iter().enumerate() {
        now += 10 * MS;
        sup.record_spawn(now);
        now += 10 * MS;
        sup.record_exit(RestartReason::BrokenPipe, now);
        if i < 3 {
            assert_eq!(
                *sup.current_state(),
                SupervisorState::Backoff { duration_ns: secs * SEC_NS },
                "iteration {i}: expected {secs} s backoff, got {:?}",
                sup.current_state()
            );
        } else {
            assert!(
                matches!(sup.current_state(), SupervisorState::Failed),
                "iteration {i}: expected Failed state, got {:?}",
                sup.current_state()
            );
            break;
        }
    }
}

#[test]
fn five_crashes_in_window_trip_failed_then_window_expires() {
    let mut now: u128 = 0;
    let mut sup = SupervisorPolicy::new();
    for _ in 0..5 {
        now += 100 * MS;
        sup.record_spawn(now);
        now += 100 * MS;
        sup.record_exit(RestartReason::BrokenPipe, now);
    }
    assert!(
        matches!(sup.current_state(), SupervisorState::Failed),
        "5 crashes inside the window must reach Failed; got {:?}",
        sup.current_state()
    );
    assert_eq!(sup.total_restarts(), 5);

    match sup.should_retry(now) {
        RetryDecision::Fail { retry_after_ns } => {
            assert!(retry_after_ns > 0, "retry_after must be > 0");
            assert!(
                retry_after_ns <= RESTART_WINDOW_NS,
                "retry_after {retry_after_ns} must not exceed the window"
            );
        }
        other => panic!("expected Fail in Failed state, got {other:?}"),
    }

    now += RESTART_WINDOW_NS as u128 + SEC;
    match sup.should_retry(now) {
        RetryDecision::Proceed => {}
        other => panic!("expected Proceed after window expired, got {other:?}"),
    }
    assert_eq!(*sup.current_state(), SupervisorState::Stopped);
}

#[test]
fn healthy_uptime_resets_backoff() {
    let mut now: u128 = 0;
    let mut sup = SupervisorPolicy::new();
    for _ in 0..4 {
        now += 10 * MS;
        sup.record_spawn(now);
        now += 10 * MS;
        sup.record_exit(RestartReason::ChildExited { code: 1 }, now);
    }
    assert_eq!(
        *sup.current_state(),
        SupervisorState::Backoff { duration_ns: 8 * SEC_NS },
        "after 4 crashes the backoff should be 8 s (1, 2, 4, 8); got {:?}",
        sup.current_state()
    );

    now += 100 * MS;
    sup.record_spawn(now);
    now += HEALTHY_UPTIME_RESET_NS as u128 + SEC;
    sup.record_exit(RestartReason::BrokenPipe, now);
    assert_eq!(
        sup.current_backoff_ns(),
        INITIAL_BACKOFF_NS,
        "healthy uptime should have reset backoff curve"
    );
}

#[test]
fn should_retry_decision_matrix() {
    let now: u128 = 0;
    let mut sup = SupervisorPolicy::new();
    assert_eq!(sup.should_retry(now), RetryDecision::Proceed);
    sup.record_spawn(now);
    assert_eq!(sup.should_retry(now), RetryDecision::Proceed);
    sup.record_exit(RestartReason::BrokenPipe, now);
    match sup.should_retry(now) {
        RetryDecision::Wait { wait_ns } => assert_eq!(wait_ns, SEC_NS),
        other => panic!("expected Wait in Backoff state, got {other:?}"),
    }
}

#[test]
fn current_uptime_spans_all_states() {
    let mut now: u128 = 0;
    let mut sup = SupervisorPolicy::new();
    assert_eq!(*sup.current_state(), SupervisorState::Stopped);
    assert_eq!(sup.current_uptime_ns(now), 0, "pristine Stopped must report zero uptime");

    sup.record_spawn(now);
    now += 7 * SEC;
    assert_eq!(*sup.current_state(), SupervisorState::Running);
    assert_eq!(sup.current_uptime_ns(now), 7 * SEC_NS);

    sup.record_exit(RestartReason::BrokenPipe, now);
    assert!(matches!(sup.current_state(), SupervisorState::Backoff { .. }));
    assert_eq!(sup.current_uptime_ns(now), 0);
    now += 3 * SEC;
    assert_eq!(sup.current_uptime_ns(now), 3 * SEC_NS);

    for _ in 0..4 {
        now += 10 * MS;
        sup.record_spawn(now);
        now += 10 * MS;
        sup.record_exit(RestartReason::BrokenPipe, now);
    }
    assert!(matches!(sup.current_state(), SupervisorState::Failed));
    let before = sup.current_uptime_ns(now);
    now += 2 * SEC;
    let after = sup.current_uptime_ns(now);
    assert_eq!(after - before, 2 * SEC_NS);

    now += RESTART_WINDOW_NS as u128 + SEC;
    let _ = sup.should_retry(now);
    assert_eq!(*sup.current_state(), SupervisorState::Stopped);
    assert_eq!(sup.current_uptime_ns(now), 0);
    now += 4 * SEC;
    assert_eq!(sup.current_uptime_ns(now), 4 * SEC_NS);
}

#[test]
fn current_uptime_uses_state_anchor_not_spawn_anchor() {
    let mut now: u128 = 0;
    let mut sup = SupervisorPolicy::new();
    sup.record_spawn(now);
    now += 120 * SEC;
    sup.record_exit(RestartReason::BrokenPipe, now);
    assert_eq!(sup.current_uptime_ns(now), 0);
    now += 5 * SEC;
    assert_eq!(sup.current_uptime_ns(now), 5 * SEC_NS);
    assert_ne!(sup.current_uptime_ns(now), 125 * SEC_NS);
}

#[test]
fn try_wait_total_ns_accumulates_monotonically() {
    let mut sup = SupervisorPolicy::new();
    assert_eq!(sup.try_wait_total_ns(), 0);
    let mut prev = 0u64;
    for i in 1..=10u64 {
        sup.record_try_wait_ns(100);
        let now_total = sup.try_wait_total_ns();
        assert_eq!(now_total, 100 * i);
        assert!(now_total > prev);
        prev = now_total;
    }
}

#[test]
fn try_wait_total_ns_zero_without_invocations() {
    let sup = SupervisorPolicy::new();
    assert_eq!(sup.try_wait_total_ns(), 0);
}

#[test]
fn try_wait_total_ns_stays_zero_when_wrapper_missing() {
    let mut sup = SupervisorPolicy::new();
    for _ in 0..10 {
        sup.record_spawn(0);
        sup.record_exit(RestartReason::BrokenPipe, 0);
    }
    assert_eq!(sup.try_wait_total_ns(), 0);
}

#[test]
fn backoff_expires_and_returns_proceed_after_window() {
    let mut now: u128 = 0;
    let mut sup = SupervisorPolicy::new();
    sup.record_spawn(now);
    sup.record_exit(RestartReason::BrokenPipe, now);
    let backoff_ns = match *sup.current_state() {
        SupervisorState::Backoff { duration_ns } => duration_ns,
        other => panic!("expected Backoff after first crash, got {other:?}"),
    };
    assert_eq!(backoff_ns, SEC_NS);

    now += 250 * MS;
    match sup.should_retry(now) {
        RetryDecision::Wait { wait_ns } => {
            assert!(wait_ns < backoff_ns, "pre-elapse wait must shrink");
            assert!(wait_ns > 0, "pre-elapse wait must be > 0");
        }
        other => panic!("expected Wait inside backoff window, got {other:?}"),
    }
    assert!(matches!(sup.current_state(), SupervisorState::Backoff { .. }));

    now += backoff_ns as u128 + 10 * MS;
    match sup.should_retry(now) {
        RetryDecision::Proceed => {}
        other => panic!("expected Proceed after backoff expired, got {other:?}"),
    }
    assert_eq!(*sup.current_state(), SupervisorState::Stopped);
    assert_eq!(sup.current_uptime_ns(now), 0);
}

#[test]
fn wait_hint_is_exact() {
    let mut sup = SupervisorPolicy::new();
    sup.record_spawn(0);
    sup.record_exit(RestartReason::BrokenPipe, 0);
    let hint = match sup.should_retry(250 * MS) {
        RetryDecision::Wait { wait_ns } => wait_ns,
        other => panic!("expected Wait, got {other:?}"),
    };
    assert_eq!(hint, 750_000_000);
    assert!(matches!(sup.should_retry(250 * MS + hint as u128 - 1), RetryDecision::Wait { wait_ns: 1 }));
    assert_eq!(sup.should_retry(250 * MS + hint as u128), RetryDecision::Proceed);
}

#[test]
fn refusal_hint_is_exact() {
    let mut sup = SupervisorPolicy::new();
    for i in 0..MAX_RESTARTS_IN_WINDOW as u128 {
        sup.record_spawn(i * SEC);
        sup.record_exit(RestartReason::BrokenPipe, i * SEC);
    }
    let hint = match sup.should_retry(10 * SEC) {
        RetryDecision::Fail { retry_after_ns } => retry_after_ns,
        other => panic!("expected Fail, got {other:?}"),
    };
    assert_eq!(hint, 290 * SEC_NS);
    assert!(matches!(
        sup.should_retry(10 * SEC + hint as u128),
        RetryDecision::Fail { retry_after_ns: 0 }
    ));
    assert_eq!(sup.should_retry(10 * SEC + hint as u128 + 1), RetryDecision::Proceed);
}

#[test]
fn reasons_have_stable_tags() {
    assert_eq!(RestartReason::InitialSpawn.as_tag(), "initial_spawn");
    assert_eq!(RestartReason::ChildExited { code: 3 }.as_tag(), "child_exited");
    assert_eq!(RestartReason::ChildSignaled { signal: 9 }.as_tag(), "child_signaled");
    assert_eq!(RestartReason::WaitFailed { message: String::new() }.as_tag(), "wait_failed");
    let mut sup = SupervisorPolicy::new();
    assert!(sup.last_reason().is_none());
    sup.record_spawn(1);
    assert_eq!(sup.last_reason().unwrap().as_tag(), "initial_spawn");
    sup.record_exit(RestartReason::ChildExited { code: 3 }, 2);
    sup.record_spawn(3);
    assert_eq!(sup.last_reason().unwrap().as_tag(), "child_exited");
}

#[test]
fn only_exits_in_the_window_count() {
    let mut sup = SupervisorPolicy::new();
    let mut exits: Vec<u128> = Vec::new();
    for at in [0, 100, 200, 301, 302, 303, 304, 1000, 1001, 1002, 1003, 1004] {
        let now = at * SEC;
        sup.record_spawn(now);
        sup.should_retry(now);
        sup.record_exit(RestartReason::BrokenPipe, now);
        exits.push(now);
        let counted = exits.iter().filter(|ts| now - **ts <= u128::from(RESTART_WINDOW_NS)).count();
        let failed = matches!(sup.current_state(), SupervisorState::Failed);
        assert_eq!(failed, counted >= MAX_RESTARTS_IN_WINDOW, "at {at} s with {counted} exits");
    }
}

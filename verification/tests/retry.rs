use atmb_crawl::utils::{backoff_config, map_to_backoff_err, BackoffConfig, FailureKind, RetryState};

#[test]
fn backoff_waits_one_second_at_first_and_five_at_most() {
    assert_eq!(
        backoff_config(),
        BackoffConfig { initial_interval_ms: 1000, max_interval_ms: 5000 }
    );
}

#[test]
fn failure_is_transient_up_to_the_budget() {
    assert_eq!(map_to_backoff_err(1, 3), FailureKind::Transient);
    assert_eq!(map_to_backoff_err(2, 3), FailureKind::Transient);
    assert_eq!(map_to_backoff_err(3, 3), FailureKind::Transient);
    assert_eq!(map_to_backoff_err(0, 0), FailureKind::Transient);
}

#[test]
fn failure_is_permanent_past_the_budget() {
    assert_eq!(map_to_backoff_err(4, 3), FailureKind::Permanent);
    assert_eq!(map_to_backoff_err(5, 3), FailureKind::Permanent);
    assert_eq!(map_to_backoff_err(1, 0), FailureKind::Permanent);
    assert_eq!(map_to_backoff_err(usize::MAX, 3), FailureKind::Permanent);
}

#[test]
fn attempts_are_counted_from_one() {
    let mut state = RetryState::new(3);
    assert!(!state.is_retry());
    assert_eq!(state.attempts(), 0);
    assert_eq!(state.begin_attempt(), 1);
    assert!(!state.is_retry());
    assert_eq!(state.begin_attempt(), 2);
    assert!(state.is_retry());
    assert_eq!(state.begin_attempt(), 3);
    assert_eq!(state.attempts(), 3);
}

#[test]
fn a_budget_of_three_gives_up_at_the_fourth_failure() {
    let mut state = RetryState::new(3);
    let mut attempts = 0;
    loop {
        attempts = state.begin_attempt();
        if state.on_failure() == FailureKind::Permanent {
            break;
        }
    }
    assert_eq!(attempts, 4);
}

#[test]
fn a_budget_of_zero_gives_up_at_the_first_failure() {
    let mut state = RetryState::new(0);
    assert_eq!(state.begin_attempt(), 1);
    assert_eq!(state.on_failure(), FailureKind::Permanent);
}

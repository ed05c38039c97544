use airdrop::retry::{
    Backoff, RetryPolicy, RetryState, RetryStep, MAX_DOUBLING_ATTEMPTS, SUBMISSION_ATTEMPTS,
    TOKEN_ATTEMPTS, TOKEN_DELAY_MS,
};

/// What a run against a scripted remote operation came to.
struct Account {
    succeeded: bool,
    invocations: u32,
    waits: Vec<u128>,
}

/// Drives a policy against a remote operation whose `i`-th invocation
/// succeeds exactly when `script(i)` holds, for at most `limit` invocations.
fn drive(policy: RetryPolicy, script: &dyn Fn(u32) -> bool, limit: u32) -> Account {
    let mut account = Account { succeeded: false, invocations: 0, waits: Vec::new() };
    let mut state = match RetryState::begin(policy) {
        Some(state) => state,
        None => return account,
    };
    while account.invocations < limit {
        let ok = script(account.invocations);
        account.invocations += 1;
        if ok {
            account.succeeded = true;
            return account;
        }
        match state.fail() {
            RetryStep::Retry { state: next, delay_ms } => {
                account.waits.push(delay_ms);
                state = next;
            }
            RetryStep::Exhausted => return account,
        }
    }
    account
}

#[test]
fn success_after_k_failures_takes_k_plus_one_invocations() {
    for k in 0..5u32 {
        let policy = RetryPolicy::exponential(5, 700).unwrap();
        let account = drive(policy, &|i| i == k, 100);
        assert!(account.succeeded);
        assert_eq!(account.invocations, k + 1);
        assert_eq!(account.waits.len() as u32, k);
    }
}

#[test]
fn waits_double_and_add_up() {
    let policy = RetryPolicy::exponential(5, 700).unwrap();
    let account = drive(policy, &|i| i == 4, 100);
    assert!(account.succeeded);
    assert_eq!(account.waits, vec![700u128, 1400, 2800, 5600]);
    let total: u128 = account.waits.iter().sum();
    assert_eq!(total, 700 * (16 - 1));
}

#[test]
fn always_failing_stops_after_max_attempts() {
    for max in 1..8u32 {
        let policy = RetryPolicy::exponential(max, 10).unwrap();
        let account = drive(policy, &|_| false, 1000);
        assert!(!account.succeeded);
        assert_eq!(account.invocations, max);
        assert_eq!(account.waits.len() as u32, max - 1);
    }
}

#[test]
fn no_wait_follows_the_last_failure() {
    let policy = RetryPolicy::submission(700);
    let account = drive(policy, &|_| false, 1000);
    assert_eq!(account.invocations, 5);
    assert_eq!(account.waits, vec![700u128, 1400, 2800, 5600]);
}

#[test]
fn zero_attempts_never_invokes() {
    let policy = RetryPolicy::fixed(Some(0), 50);
    assert!(RetryState::begin(policy).is_none());
    let account = drive(policy, &|_| true, 10);
    assert!(!account.succeeded);
    assert_eq!(account.invocations, 0);
    assert!(account.waits.is_empty());
}

#[test]
fn one_attempt_gives_up_on_first_failure() {
    let state = RetryState::begin(RetryPolicy::fixed(Some(1), 50)).unwrap();
    assert_eq!(state.attempts_left(), Some(1));
    assert!(matches!(state.fail(), RetryStep::Exhausted));
}

#[test]
fn submission_policy_is_five_doubling_attempts() {
    let policy = RetryPolicy::submission(700);
    assert_eq!(policy.max_attempts(), Some(5));
    assert_eq!(policy.max_attempts(), Some(SUBMISSION_ATTEMPTS));
    assert_eq!(policy.initial_delay_ms(), 700);
    assert_eq!(policy.backoff(), Backoff::Exponential);
}

#[test]
fn freshness_token_policy_is_ten_attempts_two_seconds_apart() {
    let policy = RetryPolicy::freshness_token();
    assert_eq!(policy.max_attempts(), Some(10));
    assert_eq!(policy.max_attempts(), Some(TOKEN_ATTEMPTS));
    assert_eq!(policy.initial_delay_ms(), 2000);
    assert_eq!(policy.initial_delay_ms(), TOKEN_DELAY_MS);
    assert_eq!(policy.backoff(), Backoff::Fixed);
    let account = drive(policy, &|_| false, 1000);
    assert!(!account.succeeded);
    assert_eq!(account.invocations, 10);
    assert_eq!(account.waits, vec![2000u128; 9]);
}

#[test]
fn freshness_token_found_on_third_attempt() {
    let account = drive(RetryPolicy::freshness_token(), &|i| i == 2, 1000);
    assert!(account.succeeded);
    assert_eq!(account.invocations, 3);
    assert_eq!(account.waits, vec![2000u128, 2000]);
}

#[test]
fn polling_policy_never_gives_up() {
    let policy = RetryPolicy::polling(700);
    assert_eq!(policy.max_attempts(), None);
    assert_eq!(policy.backoff(), Backoff::Fixed);
    let account = drive(policy, &|i| i == 999, 5000);
    assert!(account.succeeded);
    assert_eq!(account.invocations, 1000);
    assert_eq!(account.waits.len(), 999);
    assert!(account.waits.iter().all(|w| *w == 700));
}

#[test]
fn polling_state_reports_no_limit() {
    let state = RetryState::begin(RetryPolicy::polling(3)).unwrap();
    assert_eq!(state.attempts_left(), None);
    assert_eq!(state.delay_ms(), 3);
}

#[test]
fn doubling_policy_is_bounded_by_sixty_four_attempts() {
    assert_eq!(MAX_DOUBLING_ATTEMPTS, 64);
    assert!(RetryPolicy::exponential(64, u64::MAX).is_some());
    assert!(RetryPolicy::exponential(65, 1).is_none());
    assert!(RetryPolicy::exponential(u32::MAX, 0).is_none());
}

#[test]
fn longest_doubling_run_does_not_overflow() {
    let policy = RetryPolicy::exponential(64, u64::MAX).unwrap();
    let account = drive(policy, &|_| false, 1000);
    assert_eq!(account.invocations, 64);
    assert_eq!(account.waits.len(), 63);
    assert_eq!(account.waits[0], u64::MAX as u128);
    assert_eq!(account.waits[62], (u64::MAX as u128) << 62);
}

#[test]
fn state_counts_down_and_doubles() {
    let state = RetryState::begin(RetryPolicy::submission(100)).unwrap();
    assert_eq!(state.attempts_left(), Some(5));
    assert_eq!(state.delay_ms(), 100);
    match state.fail() {
        RetryStep::Retry { state, delay_ms } => {
            assert_eq!(delay_ms, 100);
            assert_eq!(state.attempts_left(), Some(4));
            assert_eq!(state.delay_ms(), 200);
        }
        RetryStep::Exhausted => panic!("four attempts are left"),
    }
}

#[test]
fn fixed_policy_keeps_its_delay() {
    let state = RetryState::begin(RetryPolicy::fixed(Some(3), 250)).unwrap();
    match state.fail() {
        RetryStep::Retry { state, delay_ms } => {
            assert_eq!(delay_ms, 250);
            assert_eq!(state.delay_ms(), 250);
            assert_eq!(state.attempts_left(), Some(2));
        }
        RetryStep::Exhausted => panic!("two attempts are left"),
    }
}

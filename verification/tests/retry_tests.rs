use pg_dump::retry::{backoff_delay, initial_state, transition, SupervisorEvent, SupervisorState};

#[test]
fn backoff_doubles_and_caps_at_sixteen_seconds() {
    assert_eq!(backoff_delay(1), 2);
    assert_eq!(backoff_delay(2), 4);
    assert_eq!(backoff_delay(3), 8);
    assert_eq!(backoff_delay(4), 16);
    assert_eq!(backoff_delay(5), 16);
    assert_eq!(backoff_delay(100), 16);
}

#[test]
fn acquisition_succeeds_on_a_good_attempt() {
    let max = 3;
    let s = initial_state();
    assert_eq!(s, SupervisorState::Idle);
    let s = transition(s, SupervisorEvent::Begin, max);
    assert_eq!(s, SupervisorState::Attempting { attempt: 1 });
    let s = transition(s, SupervisorEvent::AttemptSucceeded, max);
    assert_eq!(s, SupervisorState::Succeeded);
}

#[test]
fn failures_back_off_until_the_bound_is_exhausted() {
    let max = 3;
    let s = transition(initial_state(), SupervisorEvent::Begin, max);
    let s = transition(s, SupervisorEvent::AttemptFailed, max);
    assert_eq!(s, SupervisorState::Backoff { attempt: 1 });
    let s = transition(s, SupervisorEvent::DelayElapsed, max);
    assert_eq!(s, SupervisorState::Attempting { attempt: 2 });
    let s = transition(s, SupervisorEvent::AttemptFailed, max);
    assert_eq!(s, SupervisorState::Backoff { attempt: 2 });
    let s = transition(s, SupervisorEvent::DelayElapsed, max);
    assert_eq!(s, SupervisorState::Attempting { attempt: 3 });
    let s = transition(s, SupervisorEvent::AttemptFailed, max);
    assert_eq!(s, SupervisorState::Failed);
}

#[test]
fn zero_allowed_attempts_fail_immediately() {
    let s = transition(initial_state(), SupervisorEvent::Begin, 0);
    assert_eq!(s, SupervisorState::Failed);
}

#[test]
fn an_unexpected_event_leaves_the_state_unchanged() {
    let max = 2;
    let s = transition(initial_state(), SupervisorEvent::DelayElapsed, max);
    assert_eq!(s, SupervisorState::Idle);
    let s = transition(s, SupervisorEvent::Begin, max);
    let s2 = transition(s, SupervisorEvent::Begin, max);
    assert_eq!(s, s2);
}

use countdown::timer::{
    exit_status, is_cancel, remaining_ms, remaining_secs, step, KeyCode, TimerState,
};

#[test]
fn step_keeps_running_before_the_deadline() {
    assert_eq!(step(5000, 0, None), TimerState::Running);
    assert_eq!(step(5000, 4999, None), TimerState::Running);
}

#[test]
fn step_expires_at_the_deadline() {
    assert_eq!(step(5000, 5000, None), TimerState::Expired);
    assert_eq!(step(5000, 123456, None), TimerState::Expired);
}

#[test]
fn zero_deadline_expires_immediately() {
    assert_eq!(step(0, 0, None), TimerState::Expired);
    assert_eq!(step(0, 1, Some(KeyCode::Esc)), TimerState::Expired);
}

#[test]
fn escape_cancels_before_expiry() {
    assert_eq!(step(5000, 100, Some(KeyCode::Esc)), TimerState::Cancelled);
}

#[test]
fn interrupt_cancels_before_expiry() {
    assert_eq!(
        step(5000, 100, Some(KeyCode::Ctrl('c'))),
        TimerState::Cancelled
    );
}

#[test]
fn other_keys_are_ignored() {
    assert_eq!(step(5000, 100, Some(KeyCode::Other)), TimerState::Running);
    assert_eq!(
        step(5000, 100, Some(KeyCode::Ctrl('x'))),
        TimerState::Running
    );
}

#[test]
fn cancel_keys() {
    assert!(is_cancel(KeyCode::Esc));
    assert!(is_cancel(KeyCode::Ctrl('c')));
    assert!(!is_cancel(KeyCode::Ctrl('d')));
    assert!(!is_cancel(KeyCode::Other));
}

#[test]
fn remaining_counts_down() {
    assert_eq!(remaining_ms(5000, 2000), 3000);
    assert_eq!(remaining_secs(10500, 499), 10);
}

#[test]
fn remaining_saturates_at_zero() {
    assert_eq!(remaining_ms(2000, 5000), 0);
    assert_eq!(remaining_ms(2000, 2000), 0);
    assert_eq!(remaining_secs(1000, u64::MAX), 0);
}

#[test]
fn exit_statuses() {
    assert_eq!(exit_status(TimerState::Expired), 0);
    assert_eq!(exit_status(TimerState::Cancelled), 1);
}

#[test]
fn a_simulated_countdown_expires_on_time() {
    // Frames every 16 ms against a 100 ms deadline: the loop must reach
    // `Expired` at elapsed time at or past the deadline, and the remaining
    // time it would render never goes negative (it is unsigned and
    // saturating, checked at the boundary here).
    let deadline = 100u64;
    let mut elapsed = 0u64;
    let mut state = TimerState::Running;
    let mut frames = 0;
    while state == TimerState::Running {
        state = step(deadline, elapsed, None);
        assert!(remaining_ms(deadline, elapsed) <= deadline);
        if state == TimerState::Running {
            elapsed += 16;
        }
        frames += 1;
        assert!(frames < 100, "the countdown failed to terminate");
    }
    assert_eq!(state, TimerState::Expired);
    assert!(elapsed >= deadline);
}

#[test]
fn a_simulated_countdown_can_be_cancelled() {
    // An escape key injected before expiry must win over the later deadline.
    let deadline = 1000u64;
    let mut elapsed = 0u64;
    let mut state = TimerState::Running;
    while state == TimerState::Running {
        let ev = if elapsed >= 48 { Some(KeyCode::Esc) } else { None };
        state = step(deadline, elapsed, ev);
        if state == TimerState::Running {
            elapsed += 16;
        }
    }
    assert_eq!(state, TimerState::Cancelled);
    assert!(elapsed < deadline);
    assert_eq!(exit_status(state), 1);
}

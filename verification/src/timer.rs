//! The countdown control core: one frame of the timer loop as a state
//! machine, the saturating remaining-time computation, and the mapping from
//! a finished countdown to a process exit status.

use vstd::prelude::*;

verus! {

/// A key press as the timer loop classifies it: the escape key, a
/// control-chord such as Ctrl-C, or any other key.
#[derive(Clone, Copy, PartialEq, Eq, Structural, Debug)]
pub enum KeyCode {
    Esc,
    Ctrl(char),
    Other,
}

/// The state of the countdown loop. `Running` is the only non-terminal
/// state; `Expired` means the deadline passed, `Cancelled` means the user
/// asked to stop.
#[derive(Clone, Copy, PartialEq, Eq, Structural, Debug)]
pub enum TimerState {
    Running,
    Expired,
    Cancelled,
}

/// A key cancels the countdown exactly when it is escape or Ctrl-C.
pub open spec fn is_cancel_key(k: KeyCode) -> bool {
    k == KeyCode::Esc || k == KeyCode::Ctrl('c')
}

/// What one frame of the loop decides: expiry is checked first, against the
/// elapsed time; only a still-running timer looks at the polled key event.
pub open spec fn spec_step(deadline_ms: u64, elapsed_ms: u64, ev: Option<KeyCode>) -> TimerState {
    if elapsed_ms >= deadline_ms {
        TimerState::Expired
    } else if ev is Some && is_cancel_key(ev->0) {
        TimerState::Cancelled
    } else {
        TimerState::Running
    }
}

/// Time left before the deadline, saturating at zero: never negative.
pub open spec fn spec_remaining_ms(deadline_ms: u64, elapsed_ms: u64) -> nat {
    if elapsed_ms <= deadline_ms {
        (deadline_ms - elapsed_ms) as nat
    } else {
        0
    }
}

/// Exit status of a finished countdown: 0 for natural expiry, 1 for a user
/// cancellation. `Running` has no status; the process is still alive.
pub open spec fn spec_exit_status(s: TimerState) -> int {
    match s {
        TimerState::Expired => 0,
        TimerState::Cancelled => 1,
        TimerState::Running => 0,
    }
}

/// Decide one frame of the countdown loop: `deadline_ms` against the
/// monotonic `elapsed_ms`, then the key event polled this frame, if any.
pub fn step(deadline_ms: u64, elapsed_ms: u64, ev: Option<KeyCode>) -> (r: TimerState)
    ensures
        r == spec_step(deadline_ms, elapsed_ms, ev),
{
    if elapsed_ms >= deadline_ms {
        TimerState::Expired
    } else {
        match ev {
            Some(k) => {
                if is_cancel(k) {
                    TimerState::Cancelled
                } else {
                    TimerState::Running
                }
            },
            None => TimerState::Running,
        }
    }
}

/// Whether a key press cancels the countdown.
pub fn is_cancel(k: KeyCode) -> (r: bool)
    ensures
        r == is_cancel_key(k),
{
    match k {
        KeyCode::Esc => true,
        KeyCode::Ctrl(c) => c == 'c',
        KeyCode::Other => false,
    }
}

/// Milliseconds left before the deadline, saturating at zero.
pub fn remaining_ms(deadline_ms: u64, elapsed_ms: u64) -> (r: u64)
    ensures
        r == spec_remaining_ms(deadline_ms, elapsed_ms),
{
    if elapsed_ms <= deadline_ms {
        deadline_ms - elapsed_ms
    } else {
        0
    }
}

/// Whole seconds left before the deadline, saturating at zero; what the
/// renderer is handed each frame.
pub fn remaining_secs(deadline_ms: u64, elapsed_ms: u64) -> (r: u64)
    ensures
        r == spec_remaining_ms(deadline_ms, elapsed_ms) / 1000,
{
    remaining_ms(deadline_ms, elapsed_ms) / 1000
}

/// Exit status for a countdown that ended: 0 on expiry, 1 on cancellation.
pub fn exit_status(s: TimerState) -> (r: i32)
    requires
        !(s is Running),
    ensures
        r == spec_exit_status(s),
{
    match s {
        TimerState::Cancelled => 1,
        _ => 0,
    }
}

/// The countdown terminates: once the elapsed time reaches the deadline the
/// frame decision is `Expired`, whatever event arrives, and the remaining
/// time handed to the renderer is never negative — it is zero at and past
/// the deadline.
pub proof fn lemma_termination(deadline_ms: u64, elapsed_ms: u64, ev: Option<KeyCode>)
    ensures
        elapsed_ms >= deadline_ms ==> spec_step(deadline_ms, elapsed_ms, ev) == TimerState::Expired,
        spec_remaining_ms(deadline_ms, elapsed_ms) >= 0,
        elapsed_ms >= deadline_ms ==> spec_remaining_ms(deadline_ms, elapsed_ms) == 0,
{
}

/// Cancellation wins before expiry: an escape or interrupt key seen while
/// the deadline has not passed drives the loop to `Cancelled`, and that
/// terminal state exits with status 1.
pub proof fn lemma_cancellation(deadline_ms: u64, elapsed_ms: u64, k: KeyCode)
    requires
        elapsed_ms < deadline_ms,
        is_cancel_key(k),
    ensures
        spec_step(deadline_ms, elapsed_ms, Some(k)) == TimerState::Cancelled,
        spec_exit_status(TimerState::Cancelled) == 1,
{
}

/// A zero deadline expires on the very first elapsed check, whatever the
/// elapsed time and whatever event arrives.
pub proof fn lemma_zero_deadline_expires(elapsed_ms: u64, ev: Option<KeyCode>)
    ensures
        spec_step(0, elapsed_ms, ev) == TimerState::Expired,
{
}

} // verus!

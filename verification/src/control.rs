//! The main loop's decisions: when to stop, and how long to sleep.
//!
//! The loop itself lives outside the library — it polls keys, reads the
//! clock and sleeps — but every decision it takes each tick is a function
//! here, so the loop body is nothing but calls.

use vstd::prelude::*;
use crate::view::Action;

verus! {

/// The visual frame rate the loop aims for.
pub const TARGET_FPS: u64 = 30;

/// Whether the loop keeps running or tears down.
#[derive(Clone, Copy, PartialEq, Eq, Structural, Debug)]
pub enum LoopState {
    Running,
    Terminating,
}

/// The state after one tick's polled action: a quit request terminates,
/// everything else leaves the state as it is — and a terminated loop never
/// resumes.
pub open spec fn next_state_spec(s: LoopState, a: Action) -> LoopState {
    if a == Action::Quit {
        LoopState::Terminating
    } else {
        s
    }
}

/// Advance the loop state by one tick's polled action.
pub fn next_state(s: LoopState, a: Action) -> (r: LoopState)
    ensures
        r == next_state_spec(s, a),
{
    match a {
        Action::Quit => LoopState::Terminating,
        _ => s,
    }
}

/// One frame's time budget in microseconds at the given frame rate.
pub fn frame_budget_micros(fps: u64) -> (r: u64)
    requires
        fps > 0,
    ensures
        r == 1_000_000 as u64 / fps,
{
    1_000_000 / fps
}

/// How long to sleep after a tick that took `elapsed` of a `budget`
/// microseconds: the remainder, or nothing when the frame overran.
pub fn sleep_micros(budget: u64, elapsed: u64) -> (r: u64)
    ensures
        r == (if elapsed < budget {
            budget - elapsed
        } else {
            0
        }),
{
    if elapsed < budget {
        budget - elapsed
    } else {
        0
    }
}

} // verus!

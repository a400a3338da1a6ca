//! User-adjustable view parameters and the key dispatch that drives them.
//!
//! Gain and frequency zoom are multipliers that only ever change by the
//! fixed factor 1.2 = 6/5, so the library tracks each as a signed step
//! count: the displayed multiplier is `base * (6/5)^steps`. The program
//! around the library turns the step count into the floating-point value
//! it needs for scaling and display; the step count itself is what every
//! decision in the library reads.

use vstd::prelude::*;

verus! {

/// Largest magnitude of a gain or zoom step count. Keeping the exponent in
/// this range keeps the zoom ratio's numerator and denominator, 6^steps and
/// 5^steps, small enough for the renderer's exact bin arithmetic.
pub const STEP_LIMIT: i32 = 30;

/// What one polled key event asks of the main loop.
#[derive(Clone, Copy, PartialEq, Eq, Structural, Debug)]
pub enum Action {
    Quit,
    GainUp,
    GainDown,
    ZoomUp,
    ZoomDown,
    Idle,
}

/// A key event as the library sees it: a printable character, or anything
/// else.
#[derive(Clone, Copy, PartialEq, Eq, Structural, Debug)]
pub enum Key {
    Char(char),
    Other,
}

/// The action each key is bound to: `q` quits, `+`/`-` raise and lower the
/// gain, `w`/`s` raise and lower the frequency zoom.
pub open spec fn dispatch_spec(key: Key) -> Action {
    match key {
        Key::Char(c) => if c == 'q' {
            Action::Quit
        } else if c == '+' {
            Action::GainUp
        } else if c == '-' {
            Action::GainDown
        } else if c == 'w' {
            Action::ZoomUp
        } else if c == 's' {
            Action::ZoomDown
        } else {
            Action::Idle
        },
        Key::Other => Action::Idle,
    }
}

/// Map a polled key event to the action it requests; unknown keys request
/// nothing.
pub fn dispatch(key: Key) -> (a: Action)
    ensures
        a == dispatch_spec(key),
{
    match key {
        Key::Char(c) => {
            if c == 'q' {
                Action::Quit
            } else if c == '+' {
                Action::GainUp
            } else if c == '-' {
                Action::GainDown
            } else if c == 'w' {
                Action::ZoomUp
            } else if c == 's' {
                Action::ZoomDown
            } else {
                Action::Idle
            }
        },
        Key::Other => Action::Idle,
    }
}

/// One step up, saturating at the step limit.
pub open spec fn step_up(s: int) -> int {
    if s < STEP_LIMIT {
        s + 1
    } else {
        s
    }
}

/// One step down, saturating at the negated step limit.
pub open spec fn step_down(s: int) -> int {
    if s > -STEP_LIMIT {
        s - 1
    } else {
        s
    }
}

/// `n` saturating steps up in a row.
pub open spec fn step_up_n(s: int, n: nat) -> int
    decreases n,
{
    if n == 0 {
        s
    } else {
        step_up(step_up_n(s, (n - 1) as nat))
    }
}

/// `n` saturating steps down in a row.
pub open spec fn step_down_n(s: int, n: nat) -> int
    decreases n,
{
    if n == 0 {
        s
    } else {
        step_down(step_down_n(s, (n - 1) as nat))
    }
}

/// The view parameters the user steers: gain and frequency zoom, each as a
/// step count applied to the 6/5 factor.
pub struct ViewState {
    gain_steps: i32,
    zoom_steps: i32,
}

impl ViewState {
    /// The gain step count.
    pub closed spec fn gain(self) -> int {
        self.gain_steps as int
    }

    /// The zoom step count.
    pub closed spec fn zoom(self) -> int {
        self.zoom_steps as int
    }

    /// Both step counts stay within the step limit.
    pub open spec fn well_formed(self) -> bool {
        -STEP_LIMIT <= self.gain() <= STEP_LIMIT && -STEP_LIMIT <= self.zoom() <= STEP_LIMIT
    }

    /// The initial view: gain and zoom at their base values.
    pub fn new() -> (r: Self)
        ensures
            r.well_formed(),
            r.gain() == 0,
            r.zoom() == 0,
    {
        ViewState { gain_steps: 0, zoom_steps: 0 }
    }

    /// The gain step count, for the callers that turn it into a multiplier.
    pub fn gain_steps(&self) -> (r: i32)
        ensures
            r as int == self.gain(),
    {
        self.gain_steps
    }

    /// The zoom step count.
    pub fn zoom_steps(&self) -> (r: i32)
        ensures
            r as int == self.zoom(),
    {
        self.zoom_steps
    }

    /// Apply one action: gain and zoom move one saturating step in the
    /// asked direction; quitting and idling leave the view unchanged.
    pub fn apply(&mut self, a: Action)
        requires
            old(self).well_formed(),
        ensures
            final(self).well_formed(),
            final(self).gain() == (match a {
                Action::GainUp => step_up(old(self).gain()),
                Action::GainDown => step_down(old(self).gain()),
                _ => old(self).gain(),
            }),
            final(self).zoom() == (match a {
                Action::ZoomUp => step_up(old(self).zoom()),
                Action::ZoomDown => step_down(old(self).zoom()),
                _ => old(self).zoom(),
            }),
    {
        match a {
            Action::GainUp => {
                if self.gain_steps < STEP_LIMIT {
                    self.gain_steps = self.gain_steps + 1;
                }
            },
            Action::GainDown => {
                if self.gain_steps > -STEP_LIMIT {
                    self.gain_steps = self.gain_steps - 1;
                }
            },
            Action::ZoomUp => {
                if self.zoom_steps < STEP_LIMIT {
                    self.zoom_steps = self.zoom_steps + 1;
                }
            },
            Action::ZoomDown => {
                if self.zoom_steps > -STEP_LIMIT {
                    self.zoom_steps = self.zoom_steps - 1;
                }
            },
            _ => {},
        }
    }
}

/// Steps up never saturate while the limit is not reached.
proof fn lemma_step_up_n_exact(s: int, n: nat)
    requires
        s + n <= STEP_LIMIT,
    ensures
        step_up_n(s, n) == s + n,
    decreases n,
{
    if n > 0 {
        lemma_step_up_n_exact(s, (n - 1) as nat);
    }
}

/// Steps down never saturate while the negated limit is not reached.
proof fn lemma_step_down_n_exact(s: int, n: nat)
    requires
        s - n >= -STEP_LIMIT,
    ensures
        step_down_n(s, n) == s - n,
    decreases n,
{
    if n > 0 {
        lemma_step_down_n_exact(s, (n - 1) as nat);
    }
}

/// Gain round trip: from any in-range step count, `n` gain-up presses
/// followed by `n` gain-down presses restore the step count — and with it
/// the multiplier it denotes — exactly, as long as the upward run stays
/// within the step limit.
pub proof fn lemma_gain_round_trip(s: int, n: nat)
    requires
        -STEP_LIMIT <= s,
        s + n <= STEP_LIMIT,
    ensures
        step_down_n(step_up_n(s, n), n) == s,
{
    lemma_step_up_n_exact(s, n);
    lemma_step_down_n_exact(s + n, n);
}

} // verus!

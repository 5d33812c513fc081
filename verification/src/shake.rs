//! Transient screen shake armed by miss events.
//!
//! The effect holds a countdown: `shake_for` (re)arms it, `tick` drains it,
//! and it is at rest exactly when the countdown has reached zero. The
//! rendered offset is `amplitude * (sin(203 t), cos(107 t))` where
//! `t = 1 - remaining/total` is the progress and `amplitude = 4 (1 - t)
//! = 4 remaining/total` decays linearly to zero. The core hands the render
//! layer `amplitude` and `t` as exact rationals (numerator and denominator);
//! only the trigonometry itself is left to the caller, and a zero amplitude
//! forces a zero offset whatever the phase.

use vstd::prelude::*;

use crate::params::MAX_TIME_MS;
use crate::params::time_sub_spec;

verus! {

/// Decaying screen perturbation, armed for a fixed duration by each miss.
pub struct ScreenShakeEffect {
    remaining_ms: u64,
    total_ms: u64,
}

impl ScreenShakeEffect {
    /// How much of the most recent arming is still to run.
    pub closed spec fn remaining(&self) -> u64 {
        self.remaining_ms
    }

    /// The duration the effect was last armed for.
    pub closed spec fn total(&self) -> u64 {
        self.total_ms
    }

    #[verifier::type_invariant]
    spec fn wf(&self) -> bool {
        &&& self.remaining_ms <= self.total_ms
        &&& self.total_ms <= MAX_TIME_MS
    }

    /// How much of the most recent arming is still to run; it never
    /// exceeds the duration the effect was armed with.
    pub fn remaining_ms(&self) -> (r: u64)
        ensures
            r == self.remaining(),
            r <= self.total() <= MAX_TIME_MS,
    {
        proof {
            use_type_invariant(self);
        }
        self.remaining_ms
    }

    /// The duration the effect was last armed for.
    pub fn total_ms(&self) -> (r: u64)
        ensures
            r == self.total(),
            r <= MAX_TIME_MS,
    {
        proof {
            use_type_invariant(self);
        }
        self.total_ms
    }

    /// A new effect, at rest.
    pub fn new() -> (s: ScreenShakeEffect)
        ensures
            s.remaining() == 0,
            s.total() == 0,
    {
        ScreenShakeEffect { remaining_ms: 0, total_ms: 0 }
    }

    /// (Re)arms the effect: the full `duration_ms` is ahead of it.
    pub fn shake_for(&mut self, duration_ms: u64)
        requires
            duration_ms <= MAX_TIME_MS,
        ensures
            final(self).remaining() == duration_ms,
            final(self).total() == duration_ms,
    {
        *self = ScreenShakeEffect { remaining_ms: duration_ms, total_ms: duration_ms };
    }

    /// Drains the countdown by `delta_ms`, stopping at zero.
    pub fn tick(&mut self, delta_ms: u64)
        ensures
            final(self).remaining() == time_sub_spec(old(self).remaining(), delta_ms),
            final(self).total() == old(self).total(),
    {
        proof {
            use_type_invariant(&*self);
        }
        if delta_ms >= self.remaining_ms {
            self.remaining_ms = 0;
        } else {
            self.remaining_ms = self.remaining_ms - delta_ms;
        }
    }

    /// Whether the effect has fully decayed (the offset is zero).
    pub fn is_resting(&self) -> (b: bool)
        ensures
            b == (self.remaining() == 0),
    {
        self.remaining_ms == 0
    }

    /// The current amplitude as the exact rational `r.0 / r.1` (a rest
    /// state yields a zero numerator, hence a zero offset; a denominator of
    /// zero only occurs at rest, where the offset is zero by definition).
    pub fn amplitude_ratio(&self) -> (r: (u64, u64))
        ensures
            r.0 == 4 * self.remaining(),
            r.1 == self.total(),
            (r.0 == 0) == (self.remaining() == 0),
    {
        proof {
            use_type_invariant(self);
        }
        (4 * self.remaining_ms, self.total_ms)
    }

    /// The progress `t` of the current arming as the exact rational
    /// `r.0 / r.1`: zero when freshly armed, one when at rest.
    pub fn progress_ratio(&self) -> (r: (u64, u64))
        ensures
            r.0 == self.total() - self.remaining(),
            r.1 == self.total(),
    {
        proof {
            use_type_invariant(self);
        }
        (self.total_ms - self.remaining_ms, self.total_ms)
    }
}

} // verus!

use vstd::prelude::*;

verus! {

/// Upper bound, in milliseconds, on every duration the core handles: deltas,
/// the round clock, timer durations and animation intervals. It exists only
/// so that the fixed-point arithmetic of the difficulty curve fits in `u64`;
/// at roughly 31 years of play it does not constrain any real session. The
/// round clock saturates here instead of overflowing.
pub const MAX_TIME_MS: u64 = 1_000_000_000_000;

/// Number of misses that end the round (the player's starting health).
pub const MAX_MISSES: u64 = 10;

/// Total number of cells in the reference layout (one per letter key).
pub const CELL_COUNT: u64 = 26;

/// Opening grace window: while the round clock is below this, every cell is
/// forced to stay concealed, whatever its timer or the input says.
pub const GRACE_MS: u64 = 1500;

/// An exposed cell that retreats by timer expiry counts as a miss only once
/// the round clock has passed this point.
pub const RETREAT_MISS_MIN_MS: u64 = 1000;

/// Screen shake armed when the player strikes a concealed cell.
pub const STRIKE_MISS_SHAKE_MS: u64 = 400;

/// Screen shake armed when an exposed cell retreats unstruck.
pub const RETREAT_MISS_SHAKE_MS: u64 = 100;

/// Re-arm duration range (half-open) sampled when a cell settles into the
/// concealed state: how long it stays down before trying to pop up.
pub const CONCEALED_REARM_LO_MS: u64 = 4_000;

pub const CONCEALED_REARM_HI_MS: u64 = 14_000;

/// Re-arm duration range (half-open) sampled when a cell becomes exposed:
/// how long it stays up before retreating on its own.
pub const EXPOSED_REARM_LO_MS: u64 = 3_000;

pub const EXPOSED_REARM_HI_MS: u64 = 4_000;

/// Re-arm duration range (half-open) for the post-hit cooldown state.
pub const STRUCK_REARM_LO_MS: u64 = 1_000;

pub const STRUCK_REARM_HI_MS: u64 = 2_000;

/// Largest value any re-arm sample can take; cell timer durations never
/// exceed it, because the difficulty scale factor never exceeds one.
pub const REARM_MAX_MS: u64 = 14_000;

/// Countdown arithmetic: `a` drained by `b`, stopping at zero.
pub open spec fn time_sub_spec(a: u64, b: u64) -> u64 {
    if b >= a {
        0u64
    } else {
        (a - b) as u64
    }
}

/// Clock arithmetic: `a` advanced by `b`, saturating at `MAX_TIME_MS`.
pub open spec fn time_add_spec(a: u64, b: u64) -> u64 {
    if a + b > MAX_TIME_MS {
        MAX_TIME_MS
    } else {
        (a + b) as u64
    }
}

/// Advances a millisecond clock, saturating at `MAX_TIME_MS`.
pub fn advance_clock(a: u64, b: u64) -> (r: u64)
    requires
        a <= MAX_TIME_MS,
        b <= MAX_TIME_MS,
    ensures
        r == time_add_spec(a, b),
        r <= MAX_TIME_MS,
{
    if b > MAX_TIME_MS - a {
        MAX_TIME_MS
    } else {
        a + b
    }
}

} // verus!

//! One grid slot: a cell bound to a player trigger, cycling between
//! concealment and exposure on a randomized re-arm timer.
//!
//! Each tick the cell is given the wall clock delta, whether its trigger
//! was newly pressed, the round clock, and a snapshot of how many cells
//! were exposed before any cell mutated this tick. The transition rules:
//!
//! 1. During the opening grace window the cell is forced to stay concealed,
//!    whatever its timer or the input says; input and expiry are ignored.
//! 2. The re-arm timer is drained by the delta.
//! 3. A press on an exposed cell is a hit: the cell becomes struck and the
//!    "Bonked" cue plays. A press on a concealed cell is a miss: the cell
//!    stays concealed, the "Nope" cue plays and the timer is resampled
//!    immediately (unscaled). A press on a struck cell is ignored, and so
//!    is a timer expiry in the same tick (input has priority; the expiry
//!    is handled on the next unpressed tick, the timer resting at zero).
//! 4. Otherwise, when the timer has run out, the cell moves on: concealed
//!    cells become exposed only while the concurrency cap of the
//!    difficulty curve has room (else they stay concealed), exposed and
//!    struck cells become concealed. A fresh duration is sampled for the
//!    new state and scaled by the difficulty curve's timer scale factor.
//! 5. An exposed cell that retreats by expiry (not by being struck) after
//!    the first second of the round counts as a miss.
//! 6. When the state changed by expiry and the previous state was not
//!    struck, the cue matching the new state plays ("Rise" on exposure,
//!    "Hide" on concealment); a cell leaving the struck state hides
//!    silently.

use vstd::prelude::*;

use crate::anim::{play_model, tick_model, AnimationPlayer, AnimationSequence, PlayerModel};
use crate::curve::{max_concurrent_exposed, max_exposed_spec, scale_duration, scaled_duration_spec};
use crate::params::{
    CONCEALED_REARM_HI_MS, CONCEALED_REARM_LO_MS, EXPOSED_REARM_HI_MS, EXPOSED_REARM_LO_MS,
    GRACE_MS, MAX_TIME_MS, REARM_MAX_MS, RETREAT_MISS_MIN_MS, STRUCK_REARM_HI_MS,
    STRUCK_REARM_LO_MS, time_sub_spec,
};
use crate::sample::ReArmSource;

verus! {

/// The three states of a cell.
#[derive(Clone, Copy, Debug, PartialEq, Eq, Structural)]
pub enum CellState {
    /// Down; not a hit target. Striking its trigger now is a miss.
    Concealed,
    /// Up; striking its trigger now is a hit.
    Exposed,
    /// Post-hit cooldown; input is ignored.
    Struck,
}

/// What one cell reported from one tick (at most one of these holds).
#[derive(Clone, Copy, Debug, PartialEq, Eq, Structural)]
pub struct CellTickOutcome {
    /// The trigger was pressed while the cell was exposed.
    pub hit: bool,
    /// The trigger was pressed while the cell was concealed.
    pub strike_miss: bool,
    /// The cell was exposed and retreated unstruck by timer expiry.
    pub retreat_miss: bool,
}

/// The animation cue names a cell plays.
pub open spec fn rise_name() -> Seq<char> {
    "Rise"@
}

pub open spec fn hide_name() -> Seq<char> {
    "Hide"@
}

pub open spec fn bonked_name() -> Seq<char> {
    "Bonked"@
}

pub open spec fn nope_name() -> Seq<char> {
    "Nope"@
}

/// The re-arm sampling range (half-open) for a cell that settles into
/// `state`.
pub open spec fn range_for_spec(state: CellState) -> (u64, u64) {
    match state {
        CellState::Concealed => (CONCEALED_REARM_LO_MS, CONCEALED_REARM_HI_MS),
        CellState::Exposed => (EXPOSED_REARM_LO_MS, EXPOSED_REARM_HI_MS),
        CellState::Struck => (STRUCK_REARM_LO_MS, STRUCK_REARM_HI_MS),
    }
}

/// The state a cell is in after one tick, given its pre-tick state, the
/// drained timer, the input, the round clock and the exposure snapshot.
pub open spec fn next_state_spec(
    state: CellState,
    remaining_after: u64,
    pressed: bool,
    elapsed_ms: u64,
    exposed_snapshot: u64,
) -> CellState {
    if elapsed_ms < GRACE_MS {
        CellState::Concealed
    } else if pressed {
        match state {
            CellState::Exposed => CellState::Struck,
            _ => state,
        }
    } else if remaining_after == 0 {
        match state {
            CellState::Concealed => {
                if (exposed_snapshot as int) < max_exposed_spec(elapsed_ms as int) {
                    CellState::Exposed
                } else {
                    CellState::Concealed
                }
            },
            _ => CellState::Concealed,
        }
    } else {
        state
    }
}

/// The tick scores a hit: a press on an exposed cell past the grace window.
pub open spec fn hit_spec(state: CellState, pressed: bool, elapsed_ms: u64) -> bool {
    elapsed_ms >= GRACE_MS && pressed && state == CellState::Exposed
}

/// The tick scores a strike miss: a press on a concealed cell past the
/// grace window.
pub open spec fn strike_miss_spec(state: CellState, pressed: bool, elapsed_ms: u64) -> bool {
    elapsed_ms >= GRACE_MS && pressed && state == CellState::Concealed
}

/// The tick scores a retreat miss: an exposed cell, not pressed, whose
/// timer ran out past the first second of the round.
pub open spec fn retreat_miss_spec(
    state: CellState,
    remaining_after: u64,
    pressed: bool,
    elapsed_ms: u64,
) -> bool {
    elapsed_ms >= GRACE_MS && !pressed && remaining_after == 0 && state == CellState::Exposed
        && elapsed_ms > RETREAT_MISS_MIN_MS
}

/// The tick draws a fresh re-arm duration: on a strike miss (unscaled) or
/// on a timer expiry with no press (scaled).
pub open spec fn resamples_spec(
    state: CellState,
    remaining_after: u64,
    pressed: bool,
    elapsed_ms: u64,
) -> bool {
    elapsed_ms >= GRACE_MS && ((pressed && state == CellState::Concealed) || (!pressed
        && remaining_after == 0))
}

/// The cue started by one tick, if any: "Bonked" on a hit, "Nope" on a
/// strike miss, and on a state change by expiry the cue of the new state,
/// unless the cell is leaving the struck state.
pub open spec fn anim_after_spec(
    state: CellState,
    next: CellState,
    remaining_after: u64,
    pressed: bool,
    elapsed_ms: u64,
) -> Option<Seq<char>> {
    if elapsed_ms < GRACE_MS {
        None
    } else if pressed && state == CellState::Exposed {
        Some(bonked_name())
    } else if pressed && state == CellState::Concealed {
        Some(nope_name())
    } else if !pressed && remaining_after == 0 && next != state && state != CellState::Struck {
        match next {
            CellState::Exposed => Some(rise_name()),
            CellState::Concealed => Some(hide_name()),
            CellState::Struck => Some(bonked_name()),
        }
    } else {
        None
    }
}

/// The player model after one tick: playback advanced by the delta, then
/// pre-empted by the tick's cue, if it started one.
pub open spec fn player_after_spec(p: PlayerModel, delta_ms: u64, cue: Option<Seq<char>>) -> PlayerModel {
    let ticked = tick_model(p, delta_ms);
    match cue {
        Some(n) => play_model(ticked, n),
        None => ticked,
    }
}

/// The timer of `c` was freshly set to `v` on both counters.
pub open spec fn timer_set_to(c: Cell, v: u64) -> bool {
    c.duration_spec() == v && c.remaining_spec() == v
}

/// The scaled duration as a machine value.
pub open spec fn scaled_of(s: u64, t_ms: u64) -> u64 {
    scaled_duration_spec(s as int, t_ms as int) as u64
}

/// One draw over `lo..hi` turned source `pre` into `post` yielding `s`: a
/// scripted source yields exactly its next value and advances; a random
/// source is untouched by the draw.
pub open spec fn sample_consumed(
    pre: ReArmSource,
    post: ReArmSource,
    s: u64,
    lo: u64,
    hi: u64,
) -> bool {
    &&& lo <= s < hi
    &&& post.is_scripted() == pre.is_scripted()
    &&& post.script() == pre.script()
    &&& pre.is_scripted() ==> s == pre.peek_spec(lo, hi) && post.cursor() == pre.next_cursor_spec()
    &&& !pre.is_scripted() ==> post.cursor() == pre.cursor()
}

/// One grid slot; see the module documentation.
pub struct Cell {
    trigger: char,
    state: CellState,
    remaining_ms: u64,
    duration_ms: u64,
    player: AnimationPlayer,
}

/// Everything `Cell::tick` guarantees, relating the cell, its outcome and
/// the sampling source before and after one tick.
pub open spec fn tick_relation(
    pre: Cell,
    post: Cell,
    out: CellTickOutcome,
    delta_ms: u64,
    pressed: bool,
    elapsed_ms: u64,
    exposed_snapshot: u64,
    src_pre: ReArmSource,
    src_post: ReArmSource,
) -> bool {
    let rem_after = time_sub_spec(pre.remaining_spec(), delta_ms);
    let state = pre.state_spec();
    let next = next_state_spec(state, rem_after, pressed, elapsed_ms, exposed_snapshot);
    let cue = anim_after_spec(state, next, rem_after, pressed, elapsed_ms);
    &&& post.trigger_spec() == pre.trigger_spec()
    &&& post.state_spec() == next
    &&& out.hit == hit_spec(state, pressed, elapsed_ms)
    &&& out.strike_miss == strike_miss_spec(state, pressed, elapsed_ms)
    &&& out.retreat_miss == retreat_miss_spec(state, rem_after, pressed, elapsed_ms)
    &&& post.player_spec()@ == player_after_spec(pre.player_spec()@, delta_ms, cue)
    &&& if !resamples_spec(state, rem_after, pressed, elapsed_ms) {
        &&& post.remaining_spec() == rem_after
        &&& post.duration_spec() == pre.duration_spec()
        &&& src_post == src_pre
    } else if pressed {
        // Strike miss: a fresh concealed-range duration, unscaled.
        exists|s: u64|
            #[trigger] timer_set_to(post, s) && sample_consumed(
                src_pre,
                src_post,
                s,
                CONCEALED_REARM_LO_MS,
                CONCEALED_REARM_HI_MS,
            )
    } else {
        // Expiry: a fresh duration for the new state, scaled by the curve.
        let lo = range_for_spec(next).0;
        let hi = range_for_spec(next).1;
        exists|s: u64|
            #[trigger] timer_set_to(post, scaled_of(s, elapsed_ms)) && sample_consumed(
                src_pre,
                src_post,
                s,
                lo,
                hi,
            )
    }
}

impl Cell {
    /// The trigger bound to this cell (immutable, unique across cells).
    pub closed spec fn trigger_spec(&self) -> char {
        self.trigger
    }

    pub closed spec fn state_spec(&self) -> CellState {
        self.state
    }

    /// What is left of the re-arm timer.
    pub closed spec fn remaining_spec(&self) -> u64 {
        self.remaining_ms
    }

    /// The duration the re-arm timer was last set to.
    pub closed spec fn duration_spec(&self) -> u64 {
        self.duration_ms
    }

    /// The cell's animation player.
    pub closed spec fn player_spec(&self) -> AnimationPlayer {
        self.player
    }

    /// Well-formedness: the timer is positive, bounded, and not past its
    /// duration, and the player is well-formed with the four cues of the
    /// cell registered. Constructors establish it, every method keeps it.
    pub open spec fn inv(&self) -> bool {
        &&& 1 <= self.duration_spec() <= REARM_MAX_MS
        &&& self.remaining_spec() <= self.duration_spec()
        &&& self.player_spec().inv()
        &&& self.player_spec()@.sequences.contains_key(rise_name())
        &&& self.player_spec()@.sequences.contains_key(hide_name())
        &&& self.player_spec()@.sequences.contains_key(bonked_name())
        &&& self.player_spec()@.sequences.contains_key(nope_name())
    }

    pub fn trigger(&self) -> (t: char)
        ensures
            t == self.trigger_spec(),
    {
        self.trigger
    }

    pub fn state(&self) -> (s: CellState)
        ensures
            s == self.state_spec(),
    {
        self.state
    }

    pub fn remaining_ms(&self) -> (r: u64)
        ensures
            r == self.remaining_spec(),
    {
        self.remaining_ms
    }

    pub fn duration_ms(&self) -> (r: u64)
        ensures
            r == self.duration_spec(),
    {
        self.duration_ms
    }

    pub fn player(&self) -> (p: &AnimationPlayer)
        ensures
            *p == self.player_spec(),
    {
        &self.player
    }

    /// A new cell bound to `trigger`: concealed, its "Hide" cue playing,
    /// its timer drawn from the concealed range (unscaled; the round has
    /// not started).
    pub fn new(trigger: char, source: &mut ReArmSource) -> (c: Cell)
        ensures
            c.inv(),
            c.trigger_spec() == trigger,
            c.state_spec() == CellState::Concealed,
            exists|s: u64|
                #[trigger] timer_set_to(c, s) && sample_consumed(
                    *old(source),
                    *final(source),
                    s,
                    CONCEALED_REARM_LO_MS,
                    CONCEALED_REARM_HI_MS,
                ),
            c.player_spec()@.playing == Some(hide_name()),
            c.player_spec()@.frame_index == 0,
            c.player_spec()@.accumulated_ms == 0,
    {
        let mut player = AnimationPlayer::new();
        let mut rise_frames: Vec<usize> = Vec::new();
        rise_frames.push(4);
        rise_frames.push(3);
        rise_frames.push(1);
        rise_frames.push(0);
        player.register("Rise", AnimationSequence::from_parts(rise_frames, 80));
        let mut hide_frames: Vec<usize> = Vec::new();
        hide_frames.push(0);
        hide_frames.push(1);
        hide_frames.push(3);
        hide_frames.push(4);
        player.register("Hide", AnimationSequence::from_parts(hide_frames, 40));
        let mut bonked_frames: Vec<usize> = Vec::new();
        bonked_frames.push(2);
        bonked_frames.push(4);
        bonked_frames.push(2);
        bonked_frames.push(4);
        bonked_frames.push(2);
        bonked_frames.push(4);
        bonked_frames.push(2);
        bonked_frames.push(4);
        player.register("Bonked", AnimationSequence::from_parts(bonked_frames, 50));
        let mut nope_frames: Vec<usize> = Vec::new();
        nope_frames.push(5);
        nope_frames.push(4);
        player.register("Nope", AnimationSequence::from_parts(nope_frames, 200));
        let _ = player.play("Hide");
        let s = source.sample(CONCEALED_REARM_LO_MS, CONCEALED_REARM_HI_MS);
        let c = Cell { trigger, state: CellState::Concealed, remaining_ms: s, duration_ms: s, player };
        proof {
            assert(timer_set_to(c, s));
        }
        c
    }

    /// Forces the cell down with its "Hide" cue playing, leaving the timer
    /// alone (used when a round starts).
    pub fn force_concealed_hide(&mut self)
        requires
            old(self).inv(),
        ensures
            final(self).inv(),
            final(self).trigger_spec() == old(self).trigger_spec(),
            final(self).state_spec() == CellState::Concealed,
            final(self).remaining_spec() == old(self).remaining_spec(),
            final(self).duration_spec() == old(self).duration_spec(),
            final(self).player_spec()@ == play_model(old(self).player_spec()@, hide_name()),
    {
        self.state = CellState::Concealed;
        let _ = self.player.play("Hide");
    }

    /// Forces the cell up with its "Rise" cue playing, leaving the timer
    /// alone (used for the reveal when the round is over).
    pub fn force_exposed_rise(&mut self)
        requires
            old(self).inv(),
        ensures
            final(self).inv(),
            final(self).trigger_spec() == old(self).trigger_spec(),
            final(self).state_spec() == CellState::Exposed,
            final(self).remaining_spec() == old(self).remaining_spec(),
            final(self).duration_spec() == old(self).duration_spec(),
            final(self).player_spec()@ == play_model(old(self).player_spec()@, rise_name()),
    {
        self.state = CellState::Exposed;
        let _ = self.player.play("Rise");
    }

    /// Advances only the cell's animation playback, for the phases in
    /// which the cell itself does not run (before a round starts and after
    /// it is over, the cues keep animating).
    pub fn tick_animation(&mut self, delta_ms: u64)
        requires
            old(self).inv(),
            delta_ms <= MAX_TIME_MS,
        ensures
            final(self).inv(),
            final(self).trigger_spec() == old(self).trigger_spec(),
            final(self).state_spec() == old(self).state_spec(),
            final(self).remaining_spec() == old(self).remaining_spec(),
            final(self).duration_spec() == old(self).duration_spec(),
            final(self).player_spec()@ == tick_model(old(self).player_spec()@, delta_ms),
    {
        self.player.tick(delta_ms);
    }

    /// The re-arm sampling range for a cell settling into `state`.
    fn range_for(state: CellState) -> (r: (u64, u64))
        ensures
            r == range_for_spec(state),
            0 < r.0 < r.1,
            r.1 <= REARM_MAX_MS,
    {
        match state {
            CellState::Concealed => (CONCEALED_REARM_LO_MS, CONCEALED_REARM_HI_MS),
            CellState::Exposed => (EXPOSED_REARM_LO_MS, EXPOSED_REARM_HI_MS),
            CellState::Struck => (STRUCK_REARM_LO_MS, STRUCK_REARM_HI_MS),
        }
    }

    /// One tick of this cell; see the module documentation for the rules.
    /// `exposed_snapshot` is the number of exposed cells before any cell
    /// mutated this tick, and `elapsed_ms` the round clock already
    /// advanced by this tick's delta.
    pub fn tick(
        &mut self,
        delta_ms: u64,
        pressed: bool,
        elapsed_ms: u64,
        exposed_snapshot: u64,
        source: &mut ReArmSource,
    ) -> (out: CellTickOutcome)
        requires
            old(self).inv(),
            delta_ms <= MAX_TIME_MS,
            elapsed_ms <= MAX_TIME_MS,
        ensures
            final(self).inv(),
            tick_relation(
                *old(self),
                *final(self),
                out,
                delta_ms,
                pressed,
                elapsed_ms,
                exposed_snapshot,
                *old(source),
                *final(source),
            ),
    {
        let ghost pre = *old(self);
        let ghost src_pre = *old(source);
        let rem_after = if delta_ms >= self.remaining_ms {
            0
        } else {
            self.remaining_ms - delta_ms
        };
        self.remaining_ms = rem_after;
        self.player.tick(delta_ms);
        let prev = self.state;
        let mut out = CellTickOutcome { hit: false, strike_miss: false, retreat_miss: false };
        let ghost mut witness: u64 = 0;
        if elapsed_ms < GRACE_MS {
            self.state = CellState::Concealed;
        } else if pressed {
            if prev == CellState::Exposed {
                self.state = CellState::Struck;
                out.hit = true;
                let _ = self.player.play("Bonked");
            } else if prev == CellState::Concealed {
                out.strike_miss = true;
                let s = source.sample(CONCEALED_REARM_LO_MS, CONCEALED_REARM_HI_MS);
                self.duration_ms = s;
                self.remaining_ms = s;
                let _ = self.player.play("Nope");
                proof {
                    witness = s;
                }
            }
            // A press on a struck cell is ignored.
        } else if rem_after == 0 {
            let cap = max_concurrent_exposed(elapsed_ms);
            let next = match prev {
                CellState::Concealed => {
                    if exposed_snapshot < cap {
                        CellState::Exposed
                    } else {
                        CellState::Concealed
                    }
                },
                _ => CellState::Concealed,
            };
            if prev == CellState::Exposed && elapsed_ms > RETREAT_MISS_MIN_MS {
                out.retreat_miss = true;
            }
            let range = Cell::range_for(next);
            let s = source.sample(range.0, range.1);
            let d = scale_duration(s, elapsed_ms);
            self.duration_ms = d;
            self.remaining_ms = d;
            self.state = next;
            if next != prev && prev != CellState::Struck {
                let _ = match next {
                    CellState::Exposed => self.player.play("Rise"),
                    CellState::Concealed => self.player.play("Hide"),
                    CellState::Struck => self.player.play("Bonked"),
                };
            }
            proof {
                witness = s;
            }
        }
        proof {
            let rem = time_sub_spec(pre.remaining_spec(), delta_ms);
            let state = pre.state_spec();
            if resamples_spec(state, rem, pressed, elapsed_ms) {
                if pressed {
                    assert(timer_set_to(*self, witness) && sample_consumed(
                        src_pre,
                        *source,
                        witness,
                        CONCEALED_REARM_LO_MS,
                        CONCEALED_REARM_HI_MS,
                    ));
                } else {
                    let next = next_state_spec(state, rem, pressed, elapsed_ms, exposed_snapshot);
                    let lo = range_for_spec(next).0;
                    let hi = range_for_spec(next).1;
                    assert(timer_set_to(*self, scaled_of(witness, elapsed_ms)) && sample_consumed(
                        src_pre,
                        *source,
                        witness,
                        lo,
                        hi,
                    ));
                }
            }
        }
        out
    }
}

} // verus!

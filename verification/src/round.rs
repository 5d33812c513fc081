//! The round: lifecycle, clock, score, health, and the per-tick update of
//! all cells.
//!
//! A round is not started, active, or over. A start request moves a
//! fresh or finished-and-reset round into play: the clock and the score are
//! cleared and every cell is forced down. While active, each tick advances
//! the clock, takes one snapshot of how many cells are exposed, updates
//! every cell against that single snapshot (so the order of the pass
//! cannot bias who may rise), adds up the hits and misses, arms the screen
//! shake for each miss, and ends the round when health reaches zero: every
//! cell is then forced up for the reveal, and clock, hits and misses
//! freeze until a restart request returns the round to not started.
//!
//! Health is `MAX_MISSES` minus the misses so far, floored at zero.

use vstd::prelude::*;

use crate::anim::{play_model, tick_model};
use crate::cell::{
    anim_after_spec, hide_name, hit_spec, next_state_spec, player_after_spec, range_for_spec,
    resamples_spec, retreat_miss_spec, rise_name, scaled_of, strike_miss_spec, timer_set_to,
    Cell, CellState,
};
use crate::curve::max_exposed_spec;
use crate::params::{
    CONCEALED_REARM_HI_MS, CONCEALED_REARM_LO_MS, GRACE_MS, MAX_MISSES, MAX_TIME_MS,
    RETREAT_MISS_SHAKE_MS, STRIKE_MISS_SHAKE_MS, time_add_spec, time_sub_spec,
};
use crate::params::advance_clock;
use crate::sample::{peek_at, ReArmSource};
use crate::shake::ScreenShakeEffect;

verus! {

/// The lifecycle of a round.
#[derive(Clone, Copy, Debug, PartialEq, Eq, Structural)]
pub enum RoundPhase {
    NotStarted,
    Active,
    Over,
}

/// Errors detected when a round is set up.
#[derive(Clone, Copy, Debug, PartialEq, Eq, Structural)]
pub enum ConfigError {
    /// Two cells were asked to share one trigger.
    DuplicateTrigger,
}

/// What one tick scored, for the caller's audio cues.
#[derive(Clone, Copy, Debug, PartialEq, Eq, Structural)]
pub struct TickReport {
    pub hits_scored: u64,
    pub misses_scored: u64,
}

/// Health left after `misses` misses: `MAX_MISSES - misses`, floored at 0.
pub open spec fn health_spec(misses: u64) -> u64 {
    if misses >= MAX_MISSES {
        0u64
    } else {
        (MAX_MISSES - misses) as u64
    }
}

/// Integer saturation into the `u64` range.
pub open spec fn sat_u64(a: int) -> u64 {
    if a > u64::MAX {
        u64::MAX
    } else if a < 0 {
        0u64
    } else {
        a as u64
    }
}

/// No two entries equal.
pub open spec fn distinct_triggers(triggers: Seq<char>) -> bool {
    forall|i: int, j: int|
        #![trigger triggers[i], triggers[j]]
        0 <= i < j < triggers.len() ==> triggers[i] != triggers[j]
}

/// How many of `cells` are exposed.
pub open spec fn count_exposed_spec(cells: Seq<Cell>) -> int
    decreases cells.len(),
{
    if cells.len() == 0 {
        0
    } else {
        count_exposed_spec(cells.drop_last()) + if cells.last().state_spec()
            == CellState::Exposed {
            1int
        } else {
            0int
        }
    }
}

/// Whether cell `c` misses this tick, by strike or by retreat.
pub open spec fn cell_missed_spec(c: Cell, pressed: bool, delta_ms: u64, elapsed_ms: u64) -> bool {
    ||| strike_miss_spec(c.state_spec(), pressed, elapsed_ms)
    ||| retreat_miss_spec(
        c.state_spec(),
        time_sub_spec(c.remaining_spec(), delta_ms),
        pressed,
        elapsed_ms,
    )
}

/// How many of `cells` score a hit this tick.
pub open spec fn hits_in_pass(cells: Seq<Cell>, pressed: Seq<char>, elapsed_ms: u64) -> int
    decreases cells.len(),
{
    if cells.len() == 0 {
        0
    } else {
        hits_in_pass(cells.drop_last(), pressed, elapsed_ms) + if hit_spec(
            cells.last().state_spec(),
            pressed.contains(cells.last().trigger_spec()),
            elapsed_ms,
        ) {
            1int
        } else {
            0int
        }
    }
}

/// How many of `cells` miss this tick.
pub open spec fn misses_in_pass(
    cells: Seq<Cell>,
    pressed: Seq<char>,
    delta_ms: u64,
    elapsed_ms: u64,
) -> int
    decreases cells.len(),
{
    if cells.len() == 0 {
        0
    } else {
        misses_in_pass(cells.drop_last(), pressed, delta_ms, elapsed_ms) + if cell_missed_spec(
            cells.last(),
            pressed.contains(cells.last().trigger_spec()),
            delta_ms,
            elapsed_ms,
        ) {
            1int
        } else {
            0int
        }
    }
}

/// The shake duration armed by the pass: each miss arms the shake in cell
/// order, so the last missing cell wins; `None` when no cell missed.
pub open spec fn shake_in_pass(
    cells: Seq<Cell>,
    pressed: Seq<char>,
    delta_ms: u64,
    elapsed_ms: u64,
) -> Option<u64>
    decreases cells.len(),
{
    if cells.len() == 0 {
        None
    } else {
        let c = cells.last();
        let p = pressed.contains(c.trigger_spec());
        if strike_miss_spec(c.state_spec(), p, elapsed_ms) {
            Some(STRIKE_MISS_SHAKE_MS)
        } else if retreat_miss_spec(
            c.state_spec(),
            time_sub_spec(c.remaining_spec(), delta_ms),
            p,
            elapsed_ms,
        ) {
            Some(RETREAT_MISS_SHAKE_MS)
        } else {
            shake_in_pass(cells.drop_last(), pressed, delta_ms, elapsed_ms)
        }
    }
}

/// How many of `cells` draw a fresh duration this tick (each consumes one
/// value of a scripted source, in cell order).
pub open spec fn resamples_in_pass(
    cells: Seq<Cell>,
    pressed: Seq<char>,
    delta_ms: u64,
    elapsed_ms: u64,
) -> int
    decreases cells.len(),
{
    if cells.len() == 0 {
        0
    } else {
        resamples_in_pass(cells.drop_last(), pressed, delta_ms, elapsed_ms) + if resamples_spec(
            cells.last().state_spec(),
            time_sub_spec(cells.last().remaining_spec(), delta_ms),
            pressed.contains(cells.last().trigger_spec()),
            elapsed_ms,
        ) {
            1int
        } else {
            0int
        }
    }
}

/// A script cursor advanced `k` times: it moves one value per draw and
/// stops at the end of the script.
pub open spec fn cursor_plus(cur: int, len: int, k: int) -> int {
    if cur >= len {
        cur
    } else if cur + k >= len {
        len
    } else {
        cur + k
    }
}

/// Everything the cell pass guarantees of one cell, with the sampled
/// durations abstracted to their ranges; for a scripted source the drawn
/// values themselves are pinned by [`scripted_timer_relation`].
pub open spec fn cell_pass_relation(
    pre: Cell,
    post: Cell,
    delta_ms: u64,
    pressed: bool,
    elapsed_ms: u64,
    snapshot: u64,
) -> bool {
    let rem_after = time_sub_spec(pre.remaining_spec(), delta_ms);
    let state = pre.state_spec();
    let next = next_state_spec(state, rem_after, pressed, elapsed_ms, snapshot);
    let cue = anim_after_spec(state, next, rem_after, pressed, elapsed_ms);
    &&& post.inv()
    &&& post.trigger_spec() == pre.trigger_spec()
    &&& post.state_spec() == next
    &&& post.player_spec()@ == player_after_spec(pre.player_spec()@, delta_ms, cue)
    &&& if !resamples_spec(state, rem_after, pressed, elapsed_ms) {
        post.remaining_spec() == rem_after && post.duration_spec() == pre.duration_spec()
    } else if pressed {
        exists|s: u64|
            #[trigger] timer_set_to(post, s) && CONCEALED_REARM_LO_MS <= s
                < CONCEALED_REARM_HI_MS
    } else {
        exists|s: u64|
            #[trigger] timer_set_to(post, scaled_of(s, elapsed_ms)) && range_for_spec(next).0 <= s
                < range_for_spec(next).1
    }
}

/// One cell forced up with its "Rise" cue for the game-over reveal.
pub open spec fn forced_exposed_relation(pre: Cell, post: Cell) -> bool {
    &&& post.inv()
    &&& post.trigger_spec() == pre.trigger_spec()
    &&& post.state_spec() == CellState::Exposed
    &&& post.remaining_spec() == pre.remaining_spec()
    &&& post.duration_spec() == pre.duration_spec()
    &&& post.player_spec()@ == play_model(pre.player_spec()@, rise_name())
}

/// For a scripted source, the exact timer a resampling cell ends up with
/// this tick: its draw sits at the cursor that the resamples of the cells
/// before it (in cell order) advanced the script to. A cell that does not
/// resample is not constrained here.
pub open spec fn scripted_timer_relation(
    pre_cells: Seq<Cell>,
    post: Cell,
    i: int,
    pressed: Seq<char>,
    delta_ms: u64,
    elapsed_ms: u64,
    snapshot: u64,
    script: Seq<u64>,
    cur0: int,
) -> bool {
    let c0 = pre_cells[i];
    let p = pressed.contains(c0.trigger_spec());
    let rem_after = time_sub_spec(c0.remaining_spec(), delta_ms);
    let cur_i = cursor_plus(
        cur0,
        script.len() as int,
        resamples_in_pass(pre_cells.take(i), pressed, delta_ms, elapsed_ms),
    );
    if !resamples_spec(c0.state_spec(), rem_after, p, elapsed_ms) {
        true
    } else if p {
        timer_set_to(post, peek_at(script, cur_i, CONCEALED_REARM_LO_MS, CONCEALED_REARM_HI_MS))
    } else {
        let next = next_state_spec(c0.state_spec(), rem_after, p, elapsed_ms, snapshot);
        timer_set_to(
            post,
            scaled_of(
                peek_at(script, cur_i, range_for_spec(next).0, range_for_spec(next).1),
                elapsed_ms,
            ),
        )
    }
}

/// What one tick of an active round does to one cell: the pass itself,
/// followed, when this tick ended the round, by the forced reveal.
pub open spec fn cell_after_tick_relation(
    pre: Cell,
    post: Cell,
    delta_ms: u64,
    pressed: bool,
    elapsed_ms: u64,
    snapshot: u64,
    over: bool,
) -> bool {
    if over {
        exists|mid: Cell|
            #[trigger] cell_pass_relation(pre, mid, delta_ms, pressed, elapsed_ms, snapshot)
                && forced_exposed_relation(mid, post)
    } else {
        cell_pass_relation(pre, post, delta_ms, pressed, elapsed_ms, snapshot)
    }
}

/// What `tick` guarantees when the round has not started: animations and
/// the shake keep running; a start request begins the round, clearing the
/// clock and the score and forcing every cell down with its "Hide" cue.
pub open spec fn tick_not_started_relation(
    pre: RoundManager,
    post: RoundManager,
    report: TickReport,
    delta_ms: u64,
    start_requested: bool,
) -> bool {
    &&& report.hits_scored == 0
    &&& report.misses_scored == 0
    &&& post.phase_spec() == if start_requested {
        RoundPhase::Active
    } else {
        RoundPhase::NotStarted
    }
    &&& post.elapsed_spec() == if start_requested {
        0u64
    } else {
        pre.elapsed_spec()
    }
    &&& post.hits_spec() == if start_requested {
        0u64
    } else {
        pre.hits_spec()
    }
    &&& post.misses_spec() == if start_requested {
        0u64
    } else {
        pre.misses_spec()
    }
    &&& post.shake_spec().remaining() == time_sub_spec(pre.shake_spec().remaining(), delta_ms)
    &&& post.shake_spec().total() == pre.shake_spec().total()
    &&& post.source_spec() == pre.source_spec()
    &&& post.cells_spec().len() == pre.cells_spec().len()
    &&& forall|i: int|
        0 <= i < pre.cells_spec().len() ==> {
            let c0 = pre.cells_spec()[i];
            let c1 = #[trigger] post.cells_spec()[i];
            &&& c1.trigger_spec() == c0.trigger_spec()
            &&& c1.remaining_spec() == c0.remaining_spec()
            &&& c1.duration_spec() == c0.duration_spec()
            &&& if start_requested {
                c1.state_spec() == CellState::Concealed && c1.player_spec()@ == play_model(
                    tick_model(c0.player_spec()@, delta_ms),
                    hide_name(),
                )
            } else {
                c1.state_spec() == c0.state_spec() && c1.player_spec()@ == tick_model(
                    c0.player_spec()@,
                    delta_ms,
                )
            }
        }
}

/// What `tick` guarantees once the round is over: the clock, hits and
/// misses are frozen and the cells keep their state; animations and the
/// shake keep running; a restart request returns the round to not started.
pub open spec fn tick_over_relation(
    pre: RoundManager,
    post: RoundManager,
    report: TickReport,
    delta_ms: u64,
    start_requested: bool,
) -> bool {
    &&& report.hits_scored == 0
    &&& report.misses_scored == 0
    &&& post.phase_spec() == if start_requested {
        RoundPhase::NotStarted
    } else {
        RoundPhase::Over
    }
    &&& post.elapsed_spec() == pre.elapsed_spec()
    &&& post.hits_spec() == pre.hits_spec()
    &&& post.misses_spec() == pre.misses_spec()
    &&& post.shake_spec().remaining() == time_sub_spec(pre.shake_spec().remaining(), delta_ms)
    &&& post.shake_spec().total() == pre.shake_spec().total()
    &&& post.source_spec() == pre.source_spec()
    &&& post.cells_spec().len() == pre.cells_spec().len()
    &&& forall|i: int|
        0 <= i < pre.cells_spec().len() ==> {
            let c0 = pre.cells_spec()[i];
            let c1 = #[trigger] post.cells_spec()[i];
            &&& c1.trigger_spec() == c0.trigger_spec()
            &&& c1.state_spec() == c0.state_spec()
            &&& c1.remaining_spec() == c0.remaining_spec()
            &&& c1.duration_spec() == c0.duration_spec()
            &&& c1.player_spec()@ == tick_model(c0.player_spec()@, delta_ms)
        }
}

/// What `tick` guarantees while the round is active: the clock advances
/// first; every cell is updated against one snapshot of the exposure
/// count; hits and misses are added up; each miss arms the shake (the
/// last one in cell order wins); and when the new misses exhaust the
/// health, the round ends and every cell is forced up for the reveal.
pub open spec fn tick_active_relation(
    pre: RoundManager,
    post: RoundManager,
    report: TickReport,
    delta_ms: u64,
    pressed: Seq<char>,
) -> bool {
    let e2 = time_add_spec(pre.elapsed_spec(), delta_ms);
    let snap = count_exposed_spec(pre.cells_spec()) as u64;
    let h = hits_in_pass(pre.cells_spec(), pressed, e2);
    let m = misses_in_pass(pre.cells_spec(), pressed, delta_ms, e2);
    let new_misses = sat_u64(pre.misses_spec() + m);
    let over = new_misses >= MAX_MISSES;
    &&& report.hits_scored as int == h
    &&& report.misses_scored as int == m
    &&& post.elapsed_spec() == e2
    &&& post.hits_spec() == sat_u64(pre.hits_spec() + h)
    &&& post.misses_spec() == new_misses
    &&& post.phase_spec() == if over {
        RoundPhase::Over
    } else {
        RoundPhase::Active
    }
    &&& post.cells_spec().len() == pre.cells_spec().len()
    &&& forall|i: int|
        0 <= i < pre.cells_spec().len() ==> cell_after_tick_relation(
            pre.cells_spec()[i],
            #[trigger] post.cells_spec()[i],
            delta_ms,
            pressed.contains(pre.cells_spec()[i].trigger_spec()),
            e2,
            snap,
            over,
        )
    &&& match shake_in_pass(pre.cells_spec(), pressed, delta_ms, e2) {
        Some(d) => post.shake_spec().remaining() == d && post.shake_spec().total() == d,
        None => post.shake_spec().remaining() == time_sub_spec(
            pre.shake_spec().remaining(),
            delta_ms,
        ) && post.shake_spec().total() == pre.shake_spec().total(),
    }
    &&& post.source_spec().is_scripted() == pre.source_spec().is_scripted()
    &&& post.source_spec().script() == pre.source_spec().script()
    &&& pre.source_spec().is_scripted() ==> post.source_spec().cursor() == cursor_plus(
        pre.source_spec().cursor(),
        pre.source_spec().script().len() as int,
        resamples_in_pass(pre.cells_spec(), pressed, delta_ms, e2),
    )
    &&& pre.source_spec().is_scripted() ==> forall|i: int|
        0 <= i < pre.cells_spec().len() ==> scripted_timer_relation(
            pre.cells_spec(),
            #[trigger] post.cells_spec()[i],
            i,
            pressed,
            delta_ms,
            e2,
            snap,
            pre.source_spec().script(),
            pre.source_spec().cursor(),
        )
}

/// Health is never negative, never exceeds `MAX_MISSES`, and is zero
/// exactly when the misses have reached `MAX_MISSES` — whatever sequence
/// of ticks produced the miss count.
pub proof fn lemma_health_bounds(misses: u64)
    ensures
        0 <= health_spec(misses) <= MAX_MISSES,
        (health_spec(misses) == 0) == (misses >= MAX_MISSES),
{
}

/// A round whose tick scored at most one miss ends with the misses at
/// exactly `MAX_MISSES`: the phase moves to over at the moment health
/// runs out, not beyond it.
pub proof fn lemma_over_only_at_max_misses(
    pre: RoundManager,
    post: RoundManager,
    report: TickReport,
    delta_ms: u64,
    pressed: Seq<char>,
)
    requires
        pre.inv(),
        pre.phase_spec() == RoundPhase::Active,
        tick_active_relation(pre, post, report, delta_ms, pressed),
        report.misses_scored <= 1,
        post.phase_spec() == RoundPhase::Over,
    ensures
        post.misses_spec() == MAX_MISSES,
        health_spec(post.misses_spec()) == 0,
{
}

/// Whether `c` is a concealed cell whose timer runs out this tick with no
/// press: the only kind of cell that can newly become exposed.
pub open spec fn expiring_concealed_spec(c: Cell, pressed: Seq<char>, delta_ms: u64) -> bool {
    &&& c.state_spec() == CellState::Concealed
    &&& !pressed.contains(c.trigger_spec())
    &&& time_sub_spec(c.remaining_spec(), delta_ms) == 0
}

/// How many of `cells` are concealed with an expiring timer and no press.
pub open spec fn count_expiring_concealed(cells: Seq<Cell>, pressed: Seq<char>, delta_ms: u64) -> int
    decreases cells.len(),
{
    if cells.len() == 0 {
        0
    } else {
        count_expiring_concealed(cells.drop_last(), pressed, delta_ms) + if expiring_concealed_spec(
            cells.last(),
            pressed,
            delta_ms,
        ) {
            1int
        } else {
            0int
        }
    }
}

/// How many positions hold a cell that was not exposed before and is
/// exposed after.
pub open spec fn count_newly_exposed(cells0: Seq<Cell>, cells1: Seq<Cell>) -> int
    decreases cells0.len(),
{
    if cells0.len() == 0 || cells1.len() == 0 {
        0
    } else {
        count_newly_exposed(cells0.drop_last(), cells1.drop_last()) + if cells1.last().state_spec()
            == CellState::Exposed && cells0.last().state_spec() != CellState::Exposed {
            1int
        } else {
            0int
        }
    }
}

proof fn lemma_pass_counts_nonneg(cells0: Seq<Cell>, cells1: Seq<Cell>, pressed: Seq<char>, delta_ms: u64)
    ensures
        0 <= count_newly_exposed(cells0, cells1),
        0 <= count_expiring_concealed(cells0, pressed, delta_ms),
    decreases cells0.len(),
{
    if cells0.len() > 0 {
        lemma_pass_counts_nonneg(cells0.drop_last(), cells1.drop_last(), pressed, delta_ms);
        if cells1.len() == 0 {
            assert(count_newly_exposed(cells0, cells1) == 0);
        }
    }
}

proof fn lemma_newly_bound(cells0: Seq<Cell>, cells1: Seq<Cell>)
    requires
        cells0.len() == cells1.len(),
    ensures
        count_exposed_spec(cells1) <= count_exposed_spec(cells0) + count_newly_exposed(
            cells0,
            cells1,
        ),
    decreases cells0.len(),
{
    if cells0.len() > 0 {
        lemma_newly_bound(cells0.drop_last(), cells1.drop_last());
    }
}

proof fn lemma_newly_le_expiring(
    cells0: Seq<Cell>,
    cells1: Seq<Cell>,
    delta_ms: u64,
    pressed: Seq<char>,
    elapsed_ms: u64,
    snap: u64,
)
    requires
        cells0.len() == cells1.len(),
        forall|i: int|
            0 <= i < cells0.len() ==> cell_pass_relation(
                cells0[i],
                #[trigger] cells1[i],
                delta_ms,
                pressed.contains(cells0[i].trigger_spec()),
                elapsed_ms,
                snap,
            ),
    ensures
        count_newly_exposed(cells0, cells1) <= count_expiring_concealed(cells0, pressed, delta_ms),
        count_newly_exposed(cells0, cells1) >= 1 ==> (snap as int) < max_exposed_spec(
            elapsed_ms as int,
        ),
    decreases cells0.len(),
{
    if cells0.len() > 0 {
        let a0 = cells0.drop_last();
        let a1 = cells1.drop_last();
        assert forall|i: int| 0 <= i < a0.len() implies cell_pass_relation(
            a0[i],
            #[trigger] a1[i],
            delta_ms,
            pressed.contains(a0[i].trigger_spec()),
            elapsed_ms,
            snap,
        ) by {
            assert(a0[i] == cells0[i]);
            assert(a1[i] == cells1[i]);
            assert(cell_pass_relation(
                cells0[i],
                cells1[i],
                delta_ms,
                pressed.contains(cells0[i].trigger_spec()),
                elapsed_ms,
                snap,
            ));
        }
        lemma_newly_le_expiring(a0, a1, delta_ms, pressed, elapsed_ms, snap);
        lemma_pass_counts_nonneg(a0, a1, pressed, delta_ms);
        let k = cells0.len() - 1;
        assert(cell_pass_relation(
            cells0[k],
            cells1[k],
            delta_ms,
            pressed.contains(cells0[k].trigger_spec()),
            elapsed_ms,
            snap,
        ));
    }
}

/// The concurrency cap holds across one cell pass of an active round that
/// did not end this tick: if the exposed cells already respected the cap
/// at the snapshot, and at most one concealed cell's timer runs out this
/// tick with no press, then the exposed cells after the pass respect the
/// cap too. (Two or more cells expiring in the same tick all compare
/// against the same snapshot, so they could overshoot the cap together;
/// the hypothesis rules that out.)
pub proof fn lemma_exposure_cap(
    cells0: Seq<Cell>,
    cells1: Seq<Cell>,
    delta_ms: u64,
    pressed: Seq<char>,
    elapsed_ms: u64,
    snap: u64,
)
    requires
        cells0.len() == cells1.len(),
        snap as int == count_exposed_spec(cells0),
        forall|i: int|
            0 <= i < cells0.len() ==> cell_pass_relation(
                cells0[i],
                #[trigger] cells1[i],
                delta_ms,
                pressed.contains(cells0[i].trigger_spec()),
                elapsed_ms,
                snap,
            ),
        count_exposed_spec(cells0) <= max_exposed_spec(elapsed_ms as int),
        count_expiring_concealed(cells0, pressed, delta_ms) <= 1,
    ensures
        count_exposed_spec(cells1) <= max_exposed_spec(elapsed_ms as int),
{
    lemma_newly_bound(cells0, cells1);
    lemma_newly_le_expiring(cells0, cells1, delta_ms, pressed, elapsed_ms, snap);
    lemma_pass_counts_nonneg(cells0, cells1, pressed, delta_ms);
}

/// During the opening grace window every cell of the pass comes out
/// concealed, whatever its timer and whatever the input was.
pub proof fn lemma_grace_keeps_concealed(
    cells0: Seq<Cell>,
    cells1: Seq<Cell>,
    delta_ms: u64,
    pressed: Seq<char>,
    elapsed_ms: u64,
    snap: u64,
)
    requires
        cells0.len() == cells1.len(),
        elapsed_ms < GRACE_MS,
        forall|i: int|
            0 <= i < cells0.len() ==> cell_pass_relation(
                cells0[i],
                #[trigger] cells1[i],
                delta_ms,
                pressed.contains(cells0[i].trigger_spec()),
                elapsed_ms,
                snap,
            ),
    ensures
        forall|i: int|
            0 <= i < cells1.len() ==> (#[trigger] cells1[i]).state_spec() == CellState::Concealed,
{
    assert forall|i: int| 0 <= i < cells1.len() implies (#[trigger] cells1[i]).state_spec()
        == CellState::Concealed by {
        assert(cell_pass_relation(
            cells0[i],
            cells1[i],
            delta_ms,
            pressed.contains(cells0[i].trigger_spec()),
            elapsed_ms,
            snap,
        ));
    }
}

/// Advances every cell's animation playback (used while no round runs).
fn tick_animations(cells: &mut Vec<Cell>, delta_ms: u64)
    requires
        delta_ms <= MAX_TIME_MS,
        forall|i: int| 0 <= i < old(cells)@.len() ==> (#[trigger] old(cells)@[i]).inv(),
    ensures
        final(cells)@.len() == old(cells)@.len(),
        forall|i: int|
            0 <= i < old(cells)@.len() ==> {
                let c0 = old(cells)@[i];
                let c1 = #[trigger] final(cells)@[i];
                &&& c1.inv()
                &&& c1.trigger_spec() == c0.trigger_spec()
                &&& c1.state_spec() == c0.state_spec()
                &&& c1.remaining_spec() == c0.remaining_spec()
                &&& c1.duration_spec() == c0.duration_spec()
                &&& c1.player_spec()@ == tick_model(c0.player_spec()@, delta_ms)
            },
{
    let ghost cells0 = cells@;
    let n = cells.len();
    let mut i: usize = 0;
    while i < n
        invariant
            n == cells0.len(),
            cells@.len() == n,
            i <= n,
            delta_ms <= MAX_TIME_MS,
            forall|j: int| 0 <= j < n ==> (#[trigger] cells0[j]).inv(),
            forall|j: int| i <= j < n ==> cells@[j] == cells0[j],
            forall|j: int|
                0 <= j < i ==> {
                    let c0 = cells0[j];
                    let c1 = #[trigger] cells@[j];
                    &&& c1.inv()
                    &&& c1.trigger_spec() == c0.trigger_spec()
                    &&& c1.state_spec() == c0.state_spec()
                    &&& c1.remaining_spec() == c0.remaining_spec()
                    &&& c1.duration_spec() == c0.duration_spec()
                    &&& c1.player_spec()@ == tick_model(c0.player_spec()@, delta_ms)
                },
        decreases n - i,
    {
        cells[i].tick_animation(delta_ms);
        i = i + 1;
    }
}

/// Forces every cell down with its "Hide" cue (a round is starting).
fn force_all_concealed(cells: &mut Vec<Cell>)
    requires
        forall|i: int| 0 <= i < old(cells)@.len() ==> (#[trigger] old(cells)@[i]).inv(),
    ensures
        final(cells)@.len() == old(cells)@.len(),
        forall|i: int|
            0 <= i < old(cells)@.len() ==> {
                let c0 = old(cells)@[i];
                let c1 = #[trigger] final(cells)@[i];
                &&& c1.inv()
                &&& c1.trigger_spec() == c0.trigger_spec()
                &&& c1.state_spec() == CellState::Concealed
                &&& c1.remaining_spec() == c0.remaining_spec()
                &&& c1.duration_spec() == c0.duration_spec()
                &&& c1.player_spec()@ == play_model(c0.player_spec()@, hide_name())
            },
{
    let ghost cells0 = cells@;
    let n = cells.len();
    let mut i: usize = 0;
    while i < n
        invariant
            n == cells0.len(),
            cells@.len() == n,
            i <= n,
            forall|j: int| 0 <= j < n ==> (#[trigger] cells0[j]).inv(),
            forall|j: int| i <= j < n ==> cells@[j] == cells0[j],
            forall|j: int|
                0 <= j < i ==> {
                    let c0 = cells0[j];
                    let c1 = #[trigger] cells@[j];
                    &&& c1.inv()
                    &&& c1.trigger_spec() == c0.trigger_spec()
                    &&& c1.state_spec() == CellState::Concealed
                    &&& c1.remaining_spec() == c0.remaining_spec()
                    &&& c1.duration_spec() == c0.duration_spec()
                    &&& c1.player_spec()@ == play_model(c0.player_spec()@, hide_name())
                },
        decreases n - i,
    {
        cells[i].force_concealed_hide();
        i = i + 1;
    }
}

/// Forces every cell up with its "Rise" cue (the game-over reveal).
fn force_all_exposed(cells: &mut Vec<Cell>)
    requires
        forall|i: int| 0 <= i < old(cells)@.len() ==> (#[trigger] old(cells)@[i]).inv(),
    ensures
        final(cells)@.len() == old(cells)@.len(),
        forall|i: int|
            0 <= i < old(cells)@.len() ==> forced_exposed_relation(
                old(cells)@[i],
                #[trigger] final(cells)@[i],
            ),
{
    let ghost cells0 = cells@;
    let n = cells.len();
    let mut i: usize = 0;
    while i < n
        invariant
            n == cells0.len(),
            cells@.len() == n,
            i <= n,
            forall|j: int| 0 <= j < n ==> (#[trigger] cells0[j]).inv(),
            forall|j: int| i <= j < n ==> cells@[j] == cells0[j],
            forall|j: int|
                0 <= j < i ==> forced_exposed_relation(cells0[j], #[trigger] cells@[j]),
        decreases n - i,
    {
        proof {
            assert(cells@[i as int] == cells0[i as int]);
            assert(cells0[i as int].inv());
        }
        cells[i].force_exposed_rise();
        i = i + 1;
    }
}

/// Whether `pressed` contains `t`.
fn trigger_pressed(pressed: &Vec<char>, t: char) -> (b: bool)
    ensures
        b == pressed@.contains(t),
{
    let mut i: usize = 0;
    while i < pressed.len()
        invariant
            i <= pressed@.len(),
            forall|j: int| 0 <= j < i ==> pressed@[j] != t,
        decreases pressed@.len() - i,
    {
        if pressed[i] == t {
            return true;
        }
        i = i + 1;
    }
    false
}

/// The round manager; see the module documentation.
pub struct RoundManager {
    phase: RoundPhase,
    elapsed_ms: u64,
    hits: u64,
    misses: u64,
    cells: Vec<Cell>,
    shake: ScreenShakeEffect,
    source: ReArmSource,
}

impl RoundManager {
    pub closed spec fn phase_spec(&self) -> RoundPhase {
        self.phase
    }

    /// The round clock in milliseconds; it advances only while active.
    pub closed spec fn elapsed_spec(&self) -> u64 {
        self.elapsed_ms
    }

    pub closed spec fn hits_spec(&self) -> u64 {
        self.hits
    }

    pub closed spec fn misses_spec(&self) -> u64 {
        self.misses
    }

    pub closed spec fn cells_spec(&self) -> Seq<Cell> {
        self.cells@
    }

    pub closed spec fn shake_spec(&self) -> ScreenShakeEffect {
        self.shake
    }

    pub closed spec fn source_spec(&self) -> ReArmSource {
        self.source
    }

    /// Well-formedness: the clock is bounded, an active round has not yet
    /// spent all its health, every cell is well-formed and no two cells
    /// share a trigger.
    pub open spec fn inv(&self) -> bool {
        &&& self.elapsed_spec() <= MAX_TIME_MS
        &&& self.phase_spec() == RoundPhase::Active ==> self.misses_spec() < MAX_MISSES
        &&& forall|i: int|
            0 <= i < self.cells_spec().len() ==> (#[trigger] self.cells_spec()[i]).inv()
        &&& forall|i: int, j: int|
            #![trigger self.cells_spec()[i].trigger_spec(), self.cells_spec()[j].trigger_spec()]
            0 <= i < j < self.cells_spec().len() ==> self.cells_spec()[i].trigger_spec()
                != self.cells_spec()[j].trigger_spec()
    }

    /// Builds a round over one cell per trigger, drawing initial timers
    /// from `source`; rejects a trigger bound to two cells.
    pub fn new(triggers: Vec<char>, source: ReArmSource) -> (r: Result<RoundManager, ConfigError>)
        ensures
            distinct_triggers(triggers@) ==> (r matches Ok(m) && {
                &&& m.inv()
                &&& m.phase_spec() == RoundPhase::NotStarted
                &&& m.elapsed_spec() == 0
                &&& m.hits_spec() == 0
                &&& m.misses_spec() == 0
                &&& m.cells_spec().len() == triggers@.len()
                &&& forall|i: int|
                    0 <= i < triggers@.len() ==> {
                        let c = #[trigger] m.cells_spec()[i];
                        &&& c.trigger_spec() == triggers@[i]
                        &&& c.state_spec() == CellState::Concealed
                        &&& c.player_spec()@.playing == Some(hide_name())
                        &&& CONCEALED_REARM_LO_MS <= c.duration_spec() < CONCEALED_REARM_HI_MS
                        &&& c.remaining_spec() == c.duration_spec()
                    }
                &&& m.shake_spec().remaining() == 0
                &&& m.shake_spec().total() == 0
                &&& m.source_spec().is_scripted() == source.is_scripted()
                &&& m.source_spec().script() == source.script()
                &&& source.is_scripted() ==> m.source_spec().cursor() == cursor_plus(
                    source.cursor(),
                    source.script().len() as int,
                    triggers@.len() as int,
                )
                &&& source.is_scripted() ==> forall|i: int|
                    0 <= i < triggers@.len() ==> (#[trigger] m.cells_spec()[i]).duration_spec()
                        == peek_at(
                        source.script(),
                        cursor_plus(source.cursor(), source.script().len() as int, i),
                        CONCEALED_REARM_LO_MS,
                        CONCEALED_REARM_HI_MS,
                    )
            }),
            !distinct_triggers(triggers@) ==> r == Err::<RoundManager, ConfigError>(
                ConfigError::DuplicateTrigger,
            ),
    {
        let n = triggers.len();
        let mut i: usize = 0;
        while i < n
            invariant
                n == triggers@.len(),
                i <= n,
                forall|a: int, b: int|
                    #![trigger triggers@[a], triggers@[b]]
                    0 <= a < b < n && a < i ==> triggers@[a] != triggers@[b],
            decreases n - i,
        {
            let mut j: usize = i + 1;
            while j < n
                invariant
                    n == triggers@.len(),
                    i < j <= n || (i + 1 == j && j > n),
                    i < n,
                    forall|b: int| i < b < j ==> triggers@[i as int] != triggers@[b],
                decreases n - j,
            {
                if triggers[i] == triggers[j] {
                    return Err(ConfigError::DuplicateTrigger);
                }
                j = j + 1;
            }
            i = i + 1;
        }
        let mut src = source;
        let ghost src0 = src;
        let mut cells: Vec<Cell> = Vec::new();
        let mut k: usize = 0;
        while k < n
            invariant
                n == triggers@.len(),
                k <= n,
                cells@.len() == k,
                distinct_triggers(triggers@),
                src.is_scripted() == src0.is_scripted(),
                src.script() == src0.script(),
                src0.is_scripted() ==> src.cursor() == cursor_plus(
                    src0.cursor(),
                    src0.script().len() as int,
                    k as int,
                ),
                !src0.is_scripted() ==> src.cursor() == src0.cursor(),
                forall|i: int|
                    0 <= i < k ==> {
                        let c = #[trigger] cells@[i];
                        &&& c.inv()
                        &&& c.trigger_spec() == triggers@[i]
                        &&& c.state_spec() == CellState::Concealed
                        &&& c.player_spec()@.playing == Some(hide_name())
                        &&& CONCEALED_REARM_LO_MS <= c.duration_spec() < CONCEALED_REARM_HI_MS
                        &&& c.remaining_spec() == c.duration_spec()
                        &&& src0.is_scripted() ==> c.duration_spec() == peek_at(
                            src0.script(),
                            cursor_plus(src0.cursor(), src0.script().len() as int, i),
                            CONCEALED_REARM_LO_MS,
                            CONCEALED_REARM_HI_MS,
                        )
                    },
            decreases n - k,
        {
            let c = Cell::new(triggers[k], &mut src);
            cells.push(c);
            k = k + 1;
        }
        Ok(
            RoundManager {
                phase: RoundPhase::NotStarted,
                elapsed_ms: 0,
                hits: 0,
                misses: 0,
                cells,
                shake: ScreenShakeEffect::new(),
                source: src,
            },
        )
    }

    pub fn phase(&self) -> (p: RoundPhase)
        ensures
            p == self.phase_spec(),
    {
        self.phase
    }

    pub fn elapsed_ms(&self) -> (r: u64)
        ensures
            r == self.elapsed_spec(),
    {
        self.elapsed_ms
    }

    pub fn hits(&self) -> (r: u64)
        ensures
            r == self.hits_spec(),
    {
        self.hits
    }

    pub fn misses(&self) -> (r: u64)
        ensures
            r == self.misses_spec(),
    {
        self.misses
    }

    /// Health left: `MAX_MISSES` minus the misses so far, floored at zero
    /// (so it is never negative), and zero exactly when the misses have
    /// reached `MAX_MISSES`.
    pub fn health(&self) -> (r: u64)
        ensures
            r == health_spec(self.misses_spec()),
            r <= MAX_MISSES,
            (r == 0) == (self.misses_spec() >= MAX_MISSES),
    {
        if self.misses >= MAX_MISSES {
            0
        } else {
            MAX_MISSES - self.misses
        }
    }

    /// The cells, in creation order (their triggers never change).
    pub fn cells(&self) -> (r: &Vec<Cell>)
        ensures
            r@ == self.cells_spec(),
    {
        &self.cells
    }

    pub fn shake(&self) -> (r: &ScreenShakeEffect)
        ensures
            *r == self.shake_spec(),
    {
        &self.shake
    }

    /// How many cells are exposed right now.
    pub fn exposed_count(&self) -> (n: u64)
        ensures
            n as int == count_exposed_spec(self.cells_spec()),
            n <= self.cells_spec().len(),
    {
        let mut n: u64 = 0;
        let mut i: usize = 0;
        while i < self.cells.len()
            invariant
                i <= self.cells@.len(),
                n <= i,
                n as int == count_exposed_spec(self.cells@.take(i as int)),
            decreases self.cells@.len() - i,
        {
            let exposed = match self.cells[i].state() {
                CellState::Exposed => true,
                _ => false,
            };
            proof {
                assert(self.cells@.take(i + 1).drop_last() =~= self.cells@.take(i as int));
                assert(self.cells@.take(i + 1).last() == self.cells@[i as int]);
            }
            if exposed {
                n = n + 1;
            }
            i = i + 1;
        }
        proof {
            assert(self.cells@.take(self.cells@.len() as int) =~= self.cells@);
        }
        n
    }

    /// One tick of the whole round: the caller supplies the wall clock
    /// delta, the triggers newly pressed this tick, and whether a
    /// start/restart was requested. See the module documentation and the
    /// three phase relations for what each phase does.
    #[verifier::rlimit(100)]
    pub fn tick(&mut self, delta_ms: u64, pressed: &Vec<char>, start_requested: bool) -> (report:
        TickReport)
        requires
            old(self).inv(),
            delta_ms <= MAX_TIME_MS,
        ensures
            final(self).inv(),
            old(self).phase_spec() == RoundPhase::NotStarted ==> tick_not_started_relation(
                *old(self),
                *final(self),
                report,
                delta_ms,
                start_requested,
            ),
            old(self).phase_spec() == RoundPhase::Over ==> tick_over_relation(
                *old(self),
                *final(self),
                report,
                delta_ms,
                start_requested,
            ),
            old(self).phase_spec() == RoundPhase::Active ==> tick_active_relation(
                *old(self),
                *final(self),
                report,
                delta_ms,
                pressed@,
            ),
    {
        let ghost pre = *old(self);
        proof {
            assert forall|j: int| 0 <= j < self.cells@.len() implies (
            #[trigger] self.cells@[j]).inv() by {
                assert(pre.cells_spec()[j].inv());
            }
            assert forall|a: int, b: int|
                #![trigger self.cells@[a].trigger_spec(), self.cells@[b].trigger_spec()]
                0 <= a < b < self.cells@.len() implies self.cells@[a].trigger_spec()
                != self.cells@[b].trigger_spec() by {
                assert(pre.cells_spec()[a].trigger_spec() != pre.cells_spec()[b].trigger_spec());
            }
        }
        self.shake.tick(delta_ms);
        match self.phase {
            RoundPhase::NotStarted => {
                tick_animations(&mut self.cells, delta_ms);
                if start_requested {
                    self.phase = RoundPhase::Active;
                    self.elapsed_ms = 0;
                    self.hits = 0;
                    self.misses = 0;
                    force_all_concealed(&mut self.cells);
                }
                TickReport { hits_scored: 0, misses_scored: 0 }
            },
            RoundPhase::Over => {
                tick_animations(&mut self.cells, delta_ms);
                if start_requested {
                    self.phase = RoundPhase::NotStarted;
                }
                TickReport { hits_scored: 0, misses_scored: 0 }
            },
            RoundPhase::Active => {
                let e2 = advance_clock(self.elapsed_ms, delta_ms);
                self.elapsed_ms = e2;
                let snap = self.exposed_count();
                let ghost cells0 = self.cells@;
                let n = self.cells.len();
                let mut h: u64 = 0;
                let mut m: u64 = 0;
                let mut i: usize = 0;
                while i < n
                    invariant
                        n == cells0.len(),
                        self.cells@.len() == n,
                        i <= n,
                        delta_ms <= MAX_TIME_MS,
                        e2 <= MAX_TIME_MS,
                        snap as int == count_exposed_spec(cells0),
                        forall|j: int| 0 <= j < n ==> (#[trigger] cells0[j]).inv(),
                        forall|j: int| i <= j < n ==> self.cells@[j] == cells0[j],
                        forall|j: int|
                            0 <= j < i ==> cell_pass_relation(
                                cells0[j],
                                #[trigger] self.cells@[j],
                                delta_ms,
                                pressed@.contains(cells0[j].trigger_spec()),
                                e2,
                                snap,
                            ),
                        h <= i,
                        m <= i,
                        h as int == hits_in_pass(cells0.take(i as int), pressed@, e2),
                        m as int == misses_in_pass(cells0.take(i as int), pressed@, delta_ms, e2),
                        match shake_in_pass(cells0.take(i as int), pressed@, delta_ms, e2) {
                            Some(d) => self.shake.remaining() == d && self.shake.total() == d,
                            None => self.shake.remaining() == time_sub_spec(
                                pre.shake_spec().remaining(),
                                delta_ms,
                            ) && self.shake.total() == pre.shake_spec().total(),
                        },
                        self.source.is_scripted() == pre.source_spec().is_scripted(),
                        self.source.script() == pre.source_spec().script(),
                        pre.source_spec().is_scripted() ==> self.source.cursor() == cursor_plus(
                            pre.source_spec().cursor(),
                            pre.source_spec().script().len() as int,
                            resamples_in_pass(cells0.take(i as int), pressed@, delta_ms, e2),
                        ),
                        pre.source_spec().is_scripted() ==> forall|j: int|
                            0 <= j < i ==> scripted_timer_relation(
                                cells0,
                                #[trigger] self.cells@[j],
                                j,
                                pressed@,
                                delta_ms,
                                e2,
                                snap,
                                pre.source_spec().script(),
                                pre.source_spec().cursor(),
                            ),
                        self.phase == RoundPhase::Active,
                        self.elapsed_ms == e2,
                        self.hits == pre.hits_spec(),
                        self.misses == pre.misses_spec(),
                    decreases n - i,
                {
                    let t = self.cells[i].trigger();
                    let p = trigger_pressed(pressed, t);
                    proof {
                        assert(self.cells@[i as int] == cells0[i as int]);
                        assert(cells0[i as int].inv());
                    }
                    let ghost src_before = self.source;
                    let out = self.cells[i].tick(delta_ms, p, e2, snap, &mut self.source);
                    proof {
                        assert(cells0.take(i + 1).drop_last() =~= cells0.take(i as int));
                        assert(cells0.take(i + 1).last() == cells0[i as int]);
                    }
                    if out.hit {
                        h = h + 1;
                    }
                    if out.strike_miss {
                        m = m + 1;
                        self.shake.shake_for(STRIKE_MISS_SHAKE_MS);
                    }
                    if out.retreat_miss {
                        m = m + 1;
                        self.shake.shake_for(RETREAT_MISS_SHAKE_MS);
                    }
                    i = i + 1;
                }
                proof {
                    assert(cells0.take(n as int) =~= cells0);
                }
                self.hits = self.hits.saturating_add(h);
                self.misses = self.misses.saturating_add(m);
                let report = TickReport { hits_scored: h, misses_scored: m };
                let ghost mid_cells = self.cells@;
                let over = self.misses >= MAX_MISSES;
                if over {
                    self.phase = RoundPhase::Over;
                    force_all_exposed(&mut self.cells);
                }
                proof {
                    assert forall|i: int|
                        #![trigger self.cells_spec()[i]]
                        0 <= i < pre.cells_spec().len() implies cell_after_tick_relation(
                        pre.cells_spec()[i],
                        self.cells_spec()[i],
                        delta_ms,
                        pressed@.contains(pre.cells_spec()[i].trigger_spec()),
                        e2,
                        snap,
                        over,
                    ) by {
                        let p = pressed@.contains(cells0[i].trigger_spec());
                        if over {
                            assert(cell_pass_relation(cells0[i], mid_cells[i], delta_ms, p, e2, snap));
                            assert(forced_exposed_relation(mid_cells[i], self.cells@[i]));
                        } else {
                            assert(cell_pass_relation(cells0[i], self.cells@[i], delta_ms, p, e2, snap));
                        }
                    }
                    if pre.source_spec().is_scripted() {
                        assert forall|i: int|
                            #![trigger self.cells_spec()[i]]
                            0 <= i < pre.cells_spec().len() implies scripted_timer_relation(
                            pre.cells_spec(),
                            self.cells_spec()[i],
                            i,
                            pressed@,
                            delta_ms,
                            e2,
                            snap,
                            pre.source_spec().script(),
                            pre.source_spec().cursor(),
                        ) by {
                            assert(scripted_timer_relation(
                                cells0,
                                mid_cells[i],
                                i,
                                pressed@,
                                delta_ms,
                                e2,
                                snap,
                                pre.source_spec().script(),
                                pre.source_spec().cursor(),
                            ));
                            if over {
                                assert(forced_exposed_relation(mid_cells[i], self.cells@[i]));
                            } else {
                                assert(self.cells@[i] == mid_cells[i]);
                            }
                            assert(self.cells_spec()[i] == self.cells@[i]);
                        }
                    }
                    assert(tick_active_relation(pre, *self, report, delta_ms, pressed@));
                }
                report
            },
        }
    }
}

/// The trigger layout of the reference grid: one cell per letter key, in
/// keyboard row order.
pub fn standard_triggers() -> (r: Vec<char>)
    ensures
        r@.len() == 26,
        distinct_triggers(r@),
        r@ == seq![
            'Q', 'W', 'E', 'R', 'T', 'Y', 'U', 'I', 'O', 'P', 'A', 'S', 'D', 'F', 'G', 'H', 'J',
            'K', 'L', 'Z', 'X', 'C', 'V', 'B', 'N', 'M',
        ],
{
    let mut v: Vec<char> = Vec::new();
    v.push('Q');
    v.push('W');
    v.push('E');
    v.push('R');
    v.push('T');
    v.push('Y');
    v.push('U');
    v.push('I');
    v.push('O');
    v.push('P');
    v.push('A');
    v.push('S');
    v.push('D');
    v.push('F');
    v.push('G');
    v.push('H');
    v.push('J');
    v.push('K');
    v.push('L');
    v.push('Z');
    v.push('X');
    v.push('C');
    v.push('V');
    v.push('B');
    v.push('N');
    v.push('M');
    proof {
        assert(v@ =~= seq![
            'Q', 'W', 'E', 'R', 'T', 'Y', 'U', 'I', 'O', 'P', 'A', 'S', 'D', 'F', 'G', 'H', 'J',
            'K', 'L', 'Z', 'X', 'C', 'V', 'B', 'N', 'M',
        ]);
    }
    v
}

} // verus!

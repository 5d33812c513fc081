use whack_core::cell::{Cell, CellState};
use whack_core::params::{CONCEALED_REARM_HI_MS, CONCEALED_REARM_LO_MS};
use whack_core::sample::ReArmSource;

#[test]
fn new_cell_is_concealed_and_hiding() {
    let mut src = ReArmSource::scripted(vec![5000]);
    let c = Cell::new('Q', &mut src);
    assert_eq!(c.trigger(), 'Q');
    assert_eq!(c.state(), CellState::Concealed);
    assert_eq!(c.duration_ms(), 5000);
    assert_eq!(c.remaining_ms(), 5000);
    assert_eq!(c.player().current_name().as_deref(), Some("Hide"));
    assert_eq!(c.player().frame_index(), 0);
}

#[test]
fn new_cell_with_random_source_samples_the_concealed_range() {
    let mut src = ReArmSource::system_random();
    for t in ['A', 'B', 'C', 'D'] {
        let c = Cell::new(t, &mut src);
        assert!(c.duration_ms() >= CONCEALED_REARM_LO_MS);
        assert!(c.duration_ms() < CONCEALED_REARM_HI_MS);
        assert_eq!(c.remaining_ms(), c.duration_ms());
    }
}

#[test]
fn scripted_values_are_clamped_into_the_range() {
    let mut src = ReArmSource::scripted(vec![100, 999_999]);
    let low = Cell::new('A', &mut src);
    assert_eq!(low.duration_ms(), CONCEALED_REARM_LO_MS);
    let high = Cell::new('B', &mut src);
    assert_eq!(high.duration_ms(), CONCEALED_REARM_HI_MS - 1);
}

#[test]
fn grace_window_forces_concealment_without_scoring() {
    let mut src = ReArmSource::scripted(vec![5000]);
    let mut c = Cell::new('Q', &mut src);
    c.force_exposed_rise();
    assert_eq!(c.state(), CellState::Exposed);
    // Pressed during the grace window: forced down, nothing scored.
    let out = c.tick(16, true, 1000, 0, &mut src);
    assert_eq!(c.state(), CellState::Concealed);
    assert!(!out.hit && !out.strike_miss && !out.retreat_miss);
}

#[test]
fn grace_window_defers_timer_expiry() {
    let mut src = ReArmSource::scripted(vec![4000, 3999]);
    let mut c = Cell::new('Q', &mut src);
    // The timer runs out inside the grace window: nothing happens yet.
    let out = c.tick(4000, false, 1000, 0, &mut src);
    assert_eq!(c.state(), CellState::Concealed);
    assert_eq!(c.remaining_ms(), 0);
    assert!(!out.hit && !out.strike_miss && !out.retreat_miss);
    // Past the window the pending expiry fires and the cell rises.
    let out = c.tick(16, false, 4000, 0, &mut src);
    assert_eq!(c.state(), CellState::Exposed);
    assert!(!out.hit && !out.strike_miss && !out.retreat_miss);
    assert_eq!(c.player().current_name().as_deref(), Some("Rise"));
}

#[test]
fn pressing_an_exposed_cell_scores_a_hit() {
    let mut src = ReArmSource::scripted(vec![5000]);
    let mut c = Cell::new('Q', &mut src);
    c.force_exposed_rise();
    let out = c.tick(16, true, 2000, 1, &mut src);
    assert!(out.hit);
    assert!(!out.strike_miss && !out.retreat_miss);
    assert_eq!(c.state(), CellState::Struck);
    assert_eq!(c.player().current_name().as_deref(), Some("Bonked"));
    assert_eq!(c.player().frame_index(), 0);
}

#[test]
fn pressing_a_concealed_cell_is_a_miss_and_resamples_unscaled() {
    let mut src = ReArmSource::scripted(vec![5000, 7000]);
    let mut c = Cell::new('W', &mut src);
    let out = c.tick(16, true, 2000, 0, &mut src);
    assert!(out.strike_miss);
    assert!(!out.hit && !out.retreat_miss);
    assert_eq!(c.state(), CellState::Concealed);
    // The scripted 7000 is used as-is: the miss resample is not scaled.
    assert_eq!(c.duration_ms(), 7000);
    assert_eq!(c.remaining_ms(), 7000);
    assert_eq!(c.player().current_name().as_deref(), Some("Nope"));
    assert_eq!(c.player().frame_index(), 0);
}

#[test]
fn pressing_a_struck_cell_is_ignored() {
    let mut src = ReArmSource::scripted(vec![5000]);
    let mut c = Cell::new('Q', &mut src);
    c.force_exposed_rise();
    c.tick(16, true, 2000, 1, &mut src);
    assert_eq!(c.state(), CellState::Struck);
    let out = c.tick(16, true, 2100, 1, &mut src);
    assert!(!out.hit && !out.strike_miss && !out.retreat_miss);
    assert_eq!(c.state(), CellState::Struck);
}

#[test]
fn an_unstruck_retreat_counts_as_a_miss_and_scales_the_new_timer() {
    let mut src = ReArmSource::scripted(vec![4000, 4500]);
    let mut c = Cell::new('Q', &mut src);
    c.force_exposed_rise();
    // The timer (4000) runs out at the 5 second mark with no press.
    let out = c.tick(4000, false, 5000, 1, &mut src);
    assert!(out.retreat_miss);
    assert!(!out.hit && !out.strike_miss);
    assert_eq!(c.state(), CellState::Concealed);
    // The concealed-range draw 4500, scaled by the factor at 5 s
    // (405000/410000), is 4445.
    assert_eq!(c.duration_ms(), 4445);
    assert_eq!(c.remaining_ms(), 4445);
    assert_eq!(c.player().current_name().as_deref(), Some("Hide"));
}

#[test]
fn a_full_concurrency_cap_keeps_a_cell_down() {
    let mut src = ReArmSource::scripted(vec![4000, 13000]);
    let mut c = Cell::new('Q', &mut src);
    // The cap at 4 s is 1 and the snapshot already has one exposed cell.
    let out = c.tick(4000, false, 4000, 1, &mut src);
    assert_eq!(c.state(), CellState::Concealed);
    assert!(!out.hit && !out.strike_miss && !out.retreat_miss);
    // The timer was still resampled (and scaled) for another try.
    assert!(c.duration_ms() < 13000);
    assert!(c.duration_ms() >= 6500);
}

#[test]
fn expiry_exposes_a_cell_when_the_cap_has_room() {
    let mut src = ReArmSource::scripted(vec![4000, 3999]);
    let mut c = Cell::new('Q', &mut src);
    let out = c.tick(4000, false, 4000, 0, &mut src);
    assert_eq!(c.state(), CellState::Exposed);
    assert!(!out.hit && !out.strike_miss && !out.retreat_miss);
    // 3999 scaled by the factor at 4 s (404000/408000) is 3959.
    assert_eq!(c.duration_ms(), 3959);
    assert_eq!(c.player().current_name().as_deref(), Some("Rise"));
    assert_eq!(c.player().frame_index(), 0);
}

#[test]
fn a_struck_cell_conceals_itself_silently() {
    let mut src = ReArmSource::scripted(vec![5000, 8000]);
    let mut c = Cell::new('Q', &mut src);
    c.force_exposed_rise();
    c.tick(16, true, 2000, 1, &mut src);
    assert_eq!(c.state(), CellState::Struck);
    // Let the Bonked cue finish (8 frames of 50 ms), then expire the timer.
    let out = c.tick(4984, false, 7000, 0, &mut src);
    assert!(!out.hit && !out.strike_miss && !out.retreat_miss);
    assert_eq!(c.state(), CellState::Concealed);
    // No cue plays for the struck-to-concealed move.
    assert_eq!(c.player().current_name(), None);
}

#[test]
fn sampler_draws_stay_in_the_asked_range() {
    let mut src = ReArmSource::system_random();
    for _ in 0..100 {
        let v = src.sample(4000, 14000);
        assert!((4000..14000).contains(&v));
    }
    let mut seen = [false, false];
    for _ in 0..200 {
        let v = src.sample(0, 2);
        seen[v as usize] = true;
    }
    assert!(seen[0] && seen[1]);
}

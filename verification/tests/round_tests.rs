use whack_core::cell::CellState;
use whack_core::round::{standard_triggers, ConfigError, RoundManager, RoundPhase};
use whack_core::sample::ReArmSource;

/// A manager over the 26-key layout whose cells all start with the given
/// scripted timer values.
fn scripted_manager(values: Vec<u64>) -> RoundManager {
    RoundManager::new(standard_triggers(), ReArmSource::scripted(values)).unwrap()
}

/// Initial timers far in the future for every cell except the first
/// (bound to 'Q'), which gets `first`; `rest` is replayed afterwards.
fn manager_with_first(first: u64, rest: Vec<u64>) -> RoundManager {
    let mut values = vec![first];
    for _ in 1..26 {
        values.push(13_999);
    }
    values.extend(rest);
    scripted_manager(values)
}

#[test]
fn duplicate_triggers_are_rejected() {
    let r = RoundManager::new(vec!['Q', 'W', 'Q'], ReArmSource::system_random());
    assert_eq!(r.err().unwrap(), ConfigError::DuplicateTrigger);
}

#[test]
fn standard_layout_has_26_distinct_triggers() {
    let t = standard_triggers();
    assert_eq!(t.len(), 26);
    assert_eq!(t[0], 'Q');
    assert_eq!(t[25], 'M');
    for i in 0..t.len() {
        for j in (i + 1)..t.len() {
            assert_ne!(t[i], t[j]);
        }
    }
}

#[test]
fn a_new_round_has_not_started() {
    let m = scripted_manager(vec![]);
    assert_eq!(m.phase(), RoundPhase::NotStarted);
    assert_eq!(m.elapsed_ms(), 0);
    assert_eq!(m.hits(), 0);
    assert_eq!(m.misses(), 0);
    assert_eq!(m.health(), 10);
    assert_eq!(m.cells().len(), 26);
}

#[test]
fn the_clock_only_runs_while_active() {
    let mut m = scripted_manager(vec![]);
    m.tick(500, &vec![], false);
    assert_eq!(m.elapsed_ms(), 0);
    m.tick(500, &vec![], true);
    assert_eq!(m.phase(), RoundPhase::Active);
    assert_eq!(m.elapsed_ms(), 0);
    m.tick(500, &vec![], false);
    assert_eq!(m.elapsed_ms(), 500);
}

#[test]
fn starting_a_round_forces_every_cell_down() {
    let mut m = scripted_manager(vec![]);
    m.tick(16, &vec![], true);
    assert_eq!(m.phase(), RoundPhase::Active);
    for c in m.cells() {
        assert_eq!(c.state(), CellState::Concealed);
        assert_eq!(c.player().current_name().as_deref(), Some("Hide"));
    }
}

#[test]
fn grace_window_swallows_input() {
    let mut m = scripted_manager(vec![]);
    m.tick(0, &vec![], true);
    // Pressed at 1 second, inside the grace window: nothing is scored.
    let report = m.tick(1000, &vec!['Q'], false);
    assert_eq!(report.misses_scored, 0);
    assert_eq!(m.misses(), 0);
    for c in m.cells() {
        assert_eq!(c.state(), CellState::Concealed);
    }
}

#[test]
fn striking_a_concealed_cell_costs_health_and_shakes() {
    let mut m = scripted_manager(vec![]);
    m.tick(0, &vec![], true);
    let report = m.tick(2000, &vec!['W'], false);
    assert_eq!(report.misses_scored, 1);
    assert_eq!(report.hits_scored, 0);
    assert_eq!(m.misses(), 1);
    assert_eq!(m.health(), 9);
    assert_eq!(m.shake().remaining_ms(), 400);
    assert_eq!(m.shake().total_ms(), 400);
    let w = &m.cells()[1];
    assert_eq!(w.trigger(), 'W');
    assert_eq!(w.state(), CellState::Concealed);
    assert_eq!(w.player().current_name().as_deref(), Some("Nope"));
    assert_eq!(w.player().frame_index(), 0);
}

#[test]
fn an_exposed_cell_struck_on_time_scores() {
    let mut m = manager_with_first(4000, vec![3999]);
    m.tick(0, &vec![], true);
    // At 4 s the cap is 1 and no cell is up: 'Q' rises.
    m.tick(4000, &vec![], false);
    assert_eq!(m.exposed_count(), 1);
    let q = &m.cells()[0];
    assert_eq!(q.state(), CellState::Exposed);
    assert_eq!(q.player().current_name().as_deref(), Some("Rise"));
    // Striking it scores a hit and plays "Bonked" from its first frame.
    let report = m.tick(16, &vec!['Q'], false);
    assert_eq!(report.hits_scored, 1);
    assert_eq!(m.hits(), 1);
    assert_eq!(m.misses(), 0);
    let q = &m.cells()[0];
    assert_eq!(q.state(), CellState::Struck);
    assert_eq!(q.player().current_name().as_deref(), Some("Bonked"));
    assert_eq!(q.player().frame_index(), 0);
}

#[test]
fn an_exposed_cell_that_retreats_costs_health() {
    let mut m = manager_with_first(4000, vec![3500]);
    m.tick(0, &vec![], true);
    m.tick(4000, &vec![], false);
    assert_eq!(m.cells()[0].state(), CellState::Exposed);
    // 3500 scaled at 4 s (404000/408000) is 3465.
    assert_eq!(m.cells()[0].duration_ms(), 3465);
    // Let the exposure run out without striking it.
    let report = m.tick(3465, &vec![], false);
    assert_eq!(report.misses_scored, 1);
    assert_eq!(m.misses(), 1);
    assert_eq!(m.health(), 9);
    assert_eq!(m.shake().remaining_ms(), 100);
    assert_eq!(m.shake().total_ms(), 100);
    let q = &m.cells()[0];
    assert_eq!(q.state(), CellState::Concealed);
    assert_eq!(q.player().current_name().as_deref(), Some("Hide"));
}

#[test]
fn the_concurrency_cap_blocks_a_second_exposure() {
    // Give the second cell ('W') a timer 100 ms behind the first ('Q').
    let mut values = vec![4000u64, 4100];
    for _ in 2..26 {
        values.push(13_999);
    }
    let mut m = scripted_manager(values);
    m.tick(0, &vec![], true);
    m.tick(4000, &vec![], false);
    assert_eq!(m.exposed_count(), 1);
    // At 4.1 s the cap is still 1 and the snapshot is full: 'W' stays down.
    m.tick(100, &vec![], false);
    assert_eq!(m.exposed_count(), 1);
    assert_eq!(m.cells()[1].state(), CellState::Concealed);
}

#[test]
fn health_follows_the_miss_count() {
    let mut m = scripted_manager(vec![]);
    m.tick(0, &vec![], true);
    m.tick(2000, &vec![], false);
    for k in 1..=10u64 {
        m.tick(1, &vec!['Q'], false);
        assert_eq!(m.misses(), k);
        assert_eq!(m.health(), 10 - k);
    }
    assert_eq!(m.health(), 0);
}

#[test]
fn ten_misses_end_the_round_with_a_full_reveal() {
    let mut m = scripted_manager(vec![]);
    m.tick(0, &vec![], true);
    m.tick(2000, &vec![], false);
    for _ in 0..9 {
        m.tick(1, &vec!['Q'], false);
    }
    assert_eq!(m.phase(), RoundPhase::Active);
    assert_eq!(m.health(), 1);
    // The tenth miss flips the round to over on the same tick.
    let report = m.tick(1, &vec!['Q'], false);
    assert_eq!(report.misses_scored, 1);
    assert_eq!(m.phase(), RoundPhase::Over);
    assert_eq!(m.misses(), 10);
    assert_eq!(m.health(), 0);
    for c in m.cells() {
        assert_eq!(c.state(), CellState::Exposed);
        assert_eq!(c.player().current_name().as_deref(), Some("Rise"));
        assert_eq!(c.player().frame_index(), 0);
    }
}

#[test]
fn a_finished_round_is_frozen_until_restart() {
    let mut m = scripted_manager(vec![]);
    m.tick(0, &vec![], true);
    m.tick(2000, &vec![], false);
    for _ in 0..10 {
        m.tick(1, &vec!['Q'], false);
    }
    assert_eq!(m.phase(), RoundPhase::Over);
    let elapsed = m.elapsed_ms();
    // Further presses and time change nothing that scores.
    let report = m.tick(500, &vec!['Q', 'W'], false);
    assert_eq!(report.hits_scored, 0);
    assert_eq!(report.misses_scored, 0);
    assert_eq!(m.hits(), 0);
    assert_eq!(m.misses(), 10);
    assert_eq!(m.elapsed_ms(), elapsed);
    assert_eq!(m.phase(), RoundPhase::Over);
}

#[test]
fn restart_goes_through_not_started_and_clears_the_score() {
    let mut m = scripted_manager(vec![]);
    m.tick(0, &vec![], true);
    m.tick(2000, &vec![], false);
    for _ in 0..10 {
        m.tick(1, &vec!['Q'], false);
    }
    assert_eq!(m.phase(), RoundPhase::Over);
    m.tick(16, &vec![], true);
    assert_eq!(m.phase(), RoundPhase::NotStarted);
    assert_eq!(m.misses(), 10);
    m.tick(16, &vec![], true);
    assert_eq!(m.phase(), RoundPhase::Active);
    assert_eq!(m.elapsed_ms(), 0);
    assert_eq!(m.hits(), 0);
    assert_eq!(m.misses(), 0);
    assert_eq!(m.health(), 10);
    for c in m.cells() {
        assert_eq!(c.state(), CellState::Concealed);
    }
}

#[test]
fn exposures_respect_the_difficulty_cap() {
    // Initial timers spaced wider than the tick, so at most one concealed
    // cell can expire per tick.
    let mut values: Vec<u64> = Vec::new();
    for i in 0..26u64 {
        values.push(4000 + 380 * i);
    }
    let mut m = scripted_manager(values);
    m.tick(0, &vec![], true);
    for _ in 0..16 {
        m.tick(300, &vec![], false);
        let t = m.elapsed_ms();
        let cap = 26 * t / (t + 100_000);
        assert!(m.exposed_count() <= cap);
    }
    assert_eq!(m.exposed_count(), 1);
}

#[test]
fn a_session_of_random_play_keeps_its_books() {
    let mut m = RoundManager::new(standard_triggers(), ReArmSource::system_random()).unwrap();
    m.tick(16, &vec![], true);
    let presses = vec!['Q', 'H', 'M'];
    let mut hits = 0u64;
    let mut misses = 0u64;
    for i in 0..400 {
        let pressed = if i % 7 == 0 { presses.clone() } else { vec![] };
        let report = m.tick(16, &pressed, false);
        hits += report.hits_scored;
        misses += report.misses_scored;
        assert_eq!(m.health(), 10u64.saturating_sub(m.misses()));
        if m.phase() != RoundPhase::Active {
            break;
        }
        assert_eq!(m.hits(), hits);
        assert_eq!(m.misses(), misses);
    }
}

#[test]
fn a_scripted_source_makes_the_round_deterministic() {
    let m = RoundManager::new(vec!['Q', 'W'], ReArmSource::scripted(vec![5000, 6000, 3333]));
    let mut m = m.unwrap();
    let none: Vec<char> = Vec::new();
    m.tick(0, &none, true);
    m.tick(5000, &none, false);
    // 'Q' (initial timer 5000) expired and rose; its exposed-range draw
    // 3333, scaled by the factor at 5 s (405000/410000), is 3292.
    assert_eq!(m.cells()[0].state(), CellState::Exposed);
    assert_eq!(m.cells()[0].duration_ms(), 3292);
    assert_eq!(m.cells()[0].remaining_ms(), 3292);
    // 'W' (initial timer 6000) simply ran down.
    assert_eq!(m.cells()[1].state(), CellState::Concealed);
    assert_eq!(m.cells()[1].remaining_ms(), 1000);
    assert_eq!(m.cells()[1].duration_ms(), 6000);
}

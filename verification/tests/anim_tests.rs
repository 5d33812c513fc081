use whack_core::anim::{AnimationError, AnimationPlayer, AnimationSequence};
use whack_core::params::MAX_TIME_MS;

fn blink_player() -> AnimationPlayer {
    let mut p = AnimationPlayer::new();
    let seq = AnimationSequence::new(vec![7, 8, 9], 100).unwrap();
    p.register("Blink", seq);
    p
}

#[test]
fn sequence_rejects_empty_frames() {
    assert_eq!(
        AnimationSequence::new(vec![], 100).unwrap_err(),
        AnimationError::EmptyFrameList
    );
}

#[test]
fn sequence_rejects_bad_intervals() {
    assert_eq!(
        AnimationSequence::new(vec![1], 0).unwrap_err(),
        AnimationError::InvalidFrameInterval
    );
    assert_eq!(
        AnimationSequence::new(vec![1], MAX_TIME_MS + 1).unwrap_err(),
        AnimationError::InvalidFrameInterval
    );
}

#[test]
fn sequence_keeps_its_parts() {
    let seq = AnimationSequence::new(vec![5, 6], 250).unwrap();
    assert_eq!(seq.frames().as_slice(), &[5, 6]);
    assert_eq!(seq.frame_interval_ms(), 250);
}

#[test]
fn new_player_is_idle() {
    let p = AnimationPlayer::new();
    assert!(p.current_name().is_none());
    assert_eq!(p.current_frame(), None);
    assert_eq!(p.frame_index(), 0);
}

#[test]
fn play_unknown_name_fails_and_changes_nothing() {
    let mut p = blink_player();
    assert_eq!(p.play("Wave").unwrap_err(), AnimationError::UnknownAnimation);
    assert!(p.current_name().is_none());
}

#[test]
fn play_starts_at_frame_zero() {
    let mut p = blink_player();
    p.play("Blink").unwrap();
    assert_eq!(p.current_name().as_deref(), Some("Blink"));
    assert_eq!(p.frame_index(), 0);
    assert_eq!(p.current_frame(), Some(7));
}

#[test]
fn tick_advances_once_per_full_interval() {
    let mut p = blink_player();
    p.play("Blink").unwrap();
    p.tick(99);
    assert_eq!(p.frame_index(), 0);
    assert_eq!(p.accumulated_ms(), 99);
    p.tick(1);
    assert_eq!(p.frame_index(), 1);
    assert_eq!(p.accumulated_ms(), 0);
    assert_eq!(p.current_frame(), Some(8));
}

#[test]
fn tick_can_advance_several_frames() {
    let mut p = blink_player();
    p.play("Blink").unwrap();
    p.tick(250);
    assert_eq!(p.frame_index(), 2);
    assert_eq!(p.accumulated_ms(), 50);
    assert_eq!(p.current_frame(), Some(9));
}

#[test]
fn running_past_the_last_frame_returns_to_idle() {
    let mut p = blink_player();
    p.play("Blink").unwrap();
    p.tick(300);
    assert!(p.current_name().is_none());
    assert_eq!(p.current_frame(), None);
    assert_eq!(p.frame_index(), 0);
    assert_eq!(p.accumulated_ms(), 0);
}

#[test]
fn idle_tick_is_a_no_op() {
    let mut p = blink_player();
    p.tick(1_000);
    assert!(p.current_name().is_none());
    assert_eq!(p.frame_index(), 0);
}

#[test]
fn play_resets_a_playback_in_progress() {
    let mut p = blink_player();
    p.play("Blink").unwrap();
    p.tick(150);
    assert_eq!(p.frame_index(), 1);
    p.play("Blink").unwrap();
    assert_eq!(p.frame_index(), 0);
    assert_eq!(p.accumulated_ms(), 0);
    assert_eq!(p.current_frame(), Some(7));
}

#[test]
fn register_overwrites_a_named_sequence() {
    let mut p = blink_player();
    p.register("Blink", AnimationSequence::new(vec![1, 2], 50).unwrap());
    p.play("Blink").unwrap();
    assert_eq!(p.current_frame(), Some(1));
    p.tick(50);
    assert_eq!(p.current_frame(), Some(2));
}

#[test]
fn register_does_not_touch_other_playback() {
    let mut p = blink_player();
    p.play("Blink").unwrap();
    p.tick(150);
    p.register("Wave", AnimationSequence::new(vec![0], 10).unwrap());
    assert_eq!(p.current_name().as_deref(), Some("Blink"));
    assert_eq!(p.frame_index(), 1);
    assert!(p.has_animation("Wave"));
}

#[test]
fn overwriting_the_playing_sequence_restarts_it() {
    let mut p = blink_player();
    p.play("Blink").unwrap();
    p.tick(250);
    assert_eq!(p.frame_index(), 2);
    p.register("Blink", AnimationSequence::new(vec![4], 100).unwrap());
    assert_eq!(p.current_name().as_deref(), Some("Blink"));
    assert_eq!(p.frame_index(), 0);
    assert_eq!(p.current_frame(), Some(4));
}

#[test]
fn has_animation_reports_registration() {
    let p = blink_player();
    assert!(p.has_animation("Blink"));
    assert!(!p.has_animation("blink"));
}

use whack_core::shake::ScreenShakeEffect;

#[test]
fn new_effect_is_at_rest() {
    let s = ScreenShakeEffect::new();
    assert!(s.is_resting());
    assert_eq!(s.remaining_ms(), 0);
    assert_eq!(s.total_ms(), 0);
    assert_eq!(s.amplitude_ratio(), (0, 0));
}

#[test]
fn shake_for_arms_the_full_duration() {
    let mut s = ScreenShakeEffect::new();
    s.shake_for(400);
    assert!(!s.is_resting());
    assert_eq!(s.remaining_ms(), 400);
    assert_eq!(s.total_ms(), 400);
    assert_eq!(s.amplitude_ratio(), (1600, 400));
    assert_eq!(s.progress_ratio(), (0, 400));
}

#[test]
fn tick_drains_and_decays_linearly() {
    let mut s = ScreenShakeEffect::new();
    s.shake_for(400);
    s.tick(150);
    assert_eq!(s.remaining_ms(), 250);
    assert_eq!(s.amplitude_ratio(), (1000, 400));
    assert_eq!(s.progress_ratio(), (150, 400));
}

#[test]
fn tick_stops_at_zero_and_offset_is_zero_at_rest() {
    let mut s = ScreenShakeEffect::new();
    s.shake_for(100);
    s.tick(1_000);
    assert!(s.is_resting());
    assert_eq!(s.remaining_ms(), 0);
    let (num, den) = s.amplitude_ratio();
    assert_eq!(num, 0);
    assert_eq!(den, 100);
}

#[test]
fn rearming_overrides_a_running_shake() {
    let mut s = ScreenShakeEffect::new();
    s.shake_for(400);
    s.tick(390);
    s.shake_for(100);
    assert_eq!(s.remaining_ms(), 100);
    assert_eq!(s.total_ms(), 100);
}

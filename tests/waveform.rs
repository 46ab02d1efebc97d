use synth::{level_at, noise_level, scale, Time, VoiceKind, HERTZ, MAX_CYCLE, NOISE_SPAN, UNIT};

#[test]
fn time_phase_and_cycle() {
    let t = Time::new(250, 1000);
    assert_eq!(t.ticks(), 250);
    assert_eq!(t.rate(), 1000);
    assert_eq!(t.cycle_len(), 1_000_000);
    assert_eq!(t.phase(HERTZ), 250_000);
    assert_eq!(t.phase(3 * HERTZ), 750_000);
    assert_eq!(t.phase(5 * HERTZ), 250_000);
    assert_eq!(Time::new(u64::MAX, u32::MAX).cycle_len(), u32::MAX as u64 * 1000);
    assert!(Time::new(u64::MAX, u32::MAX).cycle_len() <= MAX_CYCLE);
}

#[test]
fn levels_of_each_shape() {
    assert_eq!(level_at(VoiceKind::Saw, 1, 4), (2, 4));
    assert_eq!(level_at(VoiceKind::Saw, 3, 4), (-2, 4));
    assert_eq!(level_at(VoiceKind::Square, 1, 4), (4, 4));
    assert_eq!(level_at(VoiceKind::Square, 2, 4), (-4, 4));
    assert_eq!(level_at(VoiceKind::Triangle, 1, 8), (4, 8));
    assert_eq!(level_at(VoiceKind::Triangle, 4, 8), (0, 8));
    assert_eq!(level_at(VoiceKind::Triangle, 7, 8), (-4, 8));
    let one: i128 = 1 << 40;
    assert_eq!(level_at(VoiceKind::Sine, 2, 8), (one, one));
    assert_eq!(level_at(VoiceKind::Sine, 6, 8), (-one, one));
    assert_eq!(level_at(VoiceKind::Sine, 0, 8), (0, one));
    assert_eq!(level_at(VoiceKind::Sine, 4, 8), (0, one));
    let (n, d) = level_at(VoiceKind::Sine, 1, 12);
    assert_eq!(d, one);
    assert!((n as f64 / d as f64 - 0.5).abs() < 1e-11);
}

#[test]
fn scaling_rounds_toward_zero() {
    assert_eq!(scale(10, 1, 3), 3);
    assert_eq!(scale(10, -1, 3), -3);
    assert_eq!(scale(-10, 1, 3), -3);
    assert_eq!(scale(7, 5, 5), 7);
    assert_eq!(scale(i32::MIN, -1, 1), 2147483648);
}

#[test]
fn noise_levels() {
    assert_eq!(NOISE_SPAN as i64, 2 * UNIT as i64);
    assert_eq!(noise_level(UNIT, 0), -(UNIT as i64));
    assert_eq!(noise_level(UNIT, NOISE_SPAN / 2), 0);
    assert_eq!(noise_level(UNIT, NOISE_SPAN - 1), UNIT as i64 - 1);
    assert_eq!(noise_level(100, NOISE_SPAN / 4), -50);
}

use float_cmp::ApproxEq;
use synth::{Synthesizer, Time, Voice, VoiceKind, HERTZ, UNIT};

const DX: f64 = std::f64::EPSILON * 2.0;

fn approx_eq(a: f64, b: f64) -> bool {
    a.approx_eq(&b, DX, 2)
}

/// A sample in full-scale units.
fn level(v: &Voice, ticks: u64, rate: u32) -> f64 {
    v.sample(Time::new(ticks, rate)) as f64 / UNIT as f64
}

fn unit_voice(kind: VoiceKind) -> Voice {
    Voice::new().amplitude(UNIT).frequency(HERTZ).kind(kind)
}

#[test]
fn triangle() {
    let v = Voice::new().amplitude(UNIT).frequency(HERTZ).kind(VoiceKind::Triangle);
    assert!(approx_eq(level(&v, 0, 1000), 0.0), "v.sample(0.000): {}", level(&v, 0, 1000));
    assert!(approx_eq(level(&v, 250, 1000), 1.0), "v.sample(0.250): {}", level(&v, 250, 1000));
    assert!(approx_eq(level(&v, 500, 1000), 0.0), "v.sample(0.500): {}", level(&v, 500, 1000));
    assert!(approx_eq(level(&v, 750, 1000), -1.0), "v.sample(0.750): {}", level(&v, 750, 1000));
    assert!(approx_eq(level(&v, 1000, 1000), 0.0), "v.sample(1.000): {}", level(&v, 1000, 1000));
    assert!(approx_eq(level(&v, 1250, 1000), 1.0), "v.sample(1.250): {}", level(&v, 1250, 1000));
    assert!(approx_eq(level(&v, 1500, 1000), 0.0), "v.sample(1.500): {}", level(&v, 1500, 1000));
    assert!(approx_eq(level(&v, 1750, 1000), -1.0), "v.sample(1.750): {}", level(&v, 1750, 1000));
    assert!(approx_eq(level(&v, 2000, 1000), 0.0), "v.sample(2.000): {}", level(&v, 2000, 1000));
}

#[test]
fn triangle_eighths() {
    let v = unit_voice(VoiceKind::Triangle);
    assert_eq!(v.sample(Time::new(125, 1000)), UNIT as i64 / 2);
    assert_eq!(v.sample(Time::new(375, 1000)), UNIT as i64 / 2);
    assert_eq!(v.sample(Time::new(625, 1000)), -(UNIT as i64) / 2);
    assert_eq!(v.sample(Time::new(875, 1000)), -(UNIT as i64) / 2);
}

#[test]
fn sine_landmarks() {
    let v = unit_voice(VoiceKind::Sine);
    assert_eq!(v.sample(Time::new(0, 1000)), 0);
    assert_eq!(v.sample(Time::new(250, 1000)), UNIT as i64);
    assert_eq!(v.sample(Time::new(500, 1000)), 0);
    assert_eq!(v.sample(Time::new(750, 1000)), -(UNIT as i64));
}

#[test]
fn sine_landmarks_scale_with_amplitude_and_frequency() {
    // 441 Hz at 44100 ticks per second: one period is 100 ticks.
    let v = Voice::new().amplitude(12345).frequency(441 * HERTZ).kind(VoiceKind::Sine);
    assert_eq!(v.sample(Time::new(0, 44100)), 0);
    assert_eq!(v.sample(Time::new(25, 44100)), 12345);
    assert_eq!(v.sample(Time::new(50, 44100)), 0);
    assert_eq!(v.sample(Time::new(75, 44100)), -12345);
    for t in 0..100u64 {
        let a = v.sample(Time::new(t, 44100));
        assert_eq!(a, v.sample(Time::new(t + 100, 44100)));
        assert_eq!(a, v.sample(Time::new(t + 700, 44100)));
    }
}

#[test]
fn sine_follows_the_sine_function() {
    let v = unit_voice(VoiceKind::Sine);
    for ms in 0..1000u64 {
        let expected = (ms as f64 / 1000.0 * 2.0 * std::f64::consts::PI).sin();
        let got = level(&v, ms, 1000);
        assert!((got - expected).abs() < 2.0 / 65536.0, "at {} ms: {} vs {}", ms, got, expected);
    }
}

#[test]
fn sine_eighth_value() {
    // 65536 * sin(pi / 4) = 46340.95, truncated toward zero.
    let v = unit_voice(VoiceKind::Sine);
    assert_eq!(v.sample(Time::new(125, 1000)), 46340);
    assert_eq!(v.sample(Time::new(625, 1000)), -46340);
}

#[test]
fn sine_is_within_one_unit_at_the_largest_amplitude() {
    let amp = i32::MAX;
    let v = Voice::new().amplitude(amp).frequency(HERTZ).kind(VoiceKind::Sine);
    for t in 0..4800u64 {
        let expected = amp as f64 * (t as f64 / 4800.0 * 2.0 * std::f64::consts::PI).sin();
        let got = v.sample(Time::new(t, 4800)) as f64;
        assert!((got - expected).abs() < 1.0, "at {}: {} vs {}", t, got, expected);
    }
}

#[test]
fn square_values() {
    let v = unit_voice(VoiceKind::Square);
    assert!(approx_eq(level(&v, 0, 10000), 1.0));
    assert!(approx_eq(level(&v, 4999, 10000), 1.0));
    assert!(approx_eq(level(&v, 5000, 10000), -1.0));
    assert!(approx_eq(level(&v, 9999, 10000), -1.0));
}

#[test]
fn saw_values() {
    let v = unit_voice(VoiceKind::Saw);
    assert!(approx_eq(level(&v, 0, 10000), 0.0));
    assert!(approx_eq(level(&v, 2500, 10000), 0.5));
    let near_top = level(&v, 4999, 10000);
    assert!(near_top < 1.0 && near_top > 0.999, "{}", near_top);
    assert!(approx_eq(level(&v, 5000, 10000), -1.0));
    assert!(approx_eq(level(&v, 7500, 10000), -0.5));
    let near_end = level(&v, 9999, 10000);
    assert!(near_end < 0.0 && near_end > -0.001, "{}", near_end);
    // 2 * 0.4999 * 65536 = 65522.8, truncated toward zero.
    assert_eq!(v.sample(Time::new(4999, 10000)), 65522);
    // (2 * 0.9999 - 2) * 65536 = -13.1, truncated toward zero.
    assert_eq!(v.sample(Time::new(9999, 10000)), -13);
}

#[test]
fn noise_stays_within_amplitude_and_spreads_evenly() {
    let v = Voice::new().amplitude(1000).frequency(HERTZ).kind(VoiceKind::Noise);
    let mut bins = [0u32; 4];
    let n = 20000;
    let mut sum: i64 = 0;
    for _ in 0..n {
        let s = v.sample(Time::new(123, 1000));
        assert!((-1000..=1000).contains(&s), "{}", s);
        sum += s;
        let bin = ((s + 1000) * 4 / 2001) as usize;
        bins[bin] += 1;
    }
    for b in bins.iter() {
        assert!(*b > 4400 && *b < 5600, "{:?}", bins);
    }
    assert!((sum as f64 / n as f64).abs() < 30.0);
}

#[test]
fn noise_with_negative_amplitude_stays_within() {
    let v = Voice::new().amplitude(-300).kind(VoiceKind::Noise);
    for _ in 0..1000 {
        let s = v.sample(Time::new(0, 1));
        assert!((-300..=300).contains(&s), "{}", s);
    }
}

#[test]
fn synthesizer_sums_voices() {
    let voices = [
        unit_voice(VoiceKind::Square),
        unit_voice(VoiceKind::Saw),
        Voice::new().amplitude(UNIT / 2).frequency(3 * HERTZ).kind(VoiceKind::Triangle),
        Voice::new().amplitude(1000).frequency(7 * HERTZ / 2).kind(VoiceKind::Sine),
    ];
    let mut synth = Synthesizer::new();
    for v in voices.iter() {
        synth.voice(*v);
    }
    for t in 0..200u64 {
        let time = Time::new(t, 200);
        let expected: i128 = voices.iter().map(|v| v.sample(time) as i128).sum();
        assert_eq!(synth.sample(time), expected);
    }
    // Square 1, saw 0.5, triangle at 3/4 of a cycle -1/2, sine at 7/8 of a cycle.
    let sine = voices[3].sample(Time::new(250, 1000)) as i128;
    assert_eq!(synth.sample(Time::new(250, 1000)), 65536 + 32768 - 32768 + sine);
}

#[test]
fn synthesizer_is_not_clipped() {
    let mut synth = Synthesizer::new();
    for _ in 0..3 {
        synth.voice(unit_voice(VoiceKind::Square));
    }
    assert_eq!(synth.sample(Time::new(0, 1000)), 3 * UNIT as i128);
}

#[test]
fn empty_synthesizer_is_silent() {
    let synth = Synthesizer::new();
    for t in [0u64, 1, 12345, u64::MAX].iter() {
        assert_eq!(synth.sample(Time::new(*t, 48000)), 0);
    }
}

#[test]
fn repeated_samples_agree() {
    let mut synth = Synthesizer::new();
    for kind in [VoiceKind::Saw, VoiceKind::Sine, VoiceKind::Square, VoiceKind::Triangle].iter() {
        let v = Voice::new().amplitude(777).frequency(440 * HERTZ + 123).kind(*kind);
        for t in [0u64, 17, 44099, 1 << 40].iter() {
            let time = Time::new(*t, 44100);
            assert_eq!(v.sample(time), v.sample(time));
        }
        synth.voice(v);
    }
    let time = Time::new(31337, 44100);
    assert_eq!(synth.sample(time), synth.sample(time));
}

#[test]
fn zero_frequency_stays_at_phase_zero() {
    for t in [0u64, 1, 999, 1 << 50, u64::MAX].iter() {
        let time = Time::new(*t, 44100);
        assert_eq!(Voice::new().amplitude(500).kind(VoiceKind::Square).sample(time), 500);
        assert_eq!(Voice::new().amplitude(500).kind(VoiceKind::Saw).sample(time), 0);
        assert_eq!(Voice::new().amplitude(500).kind(VoiceKind::Sine).sample(time), 0);
        assert_eq!(Voice::new().amplitude(500).kind(VoiceKind::Triangle).sample(time), 0);
        assert_eq!(time.phase(0), 0);
    }
}

#[test]
fn default_voice_is_silent() {
    let v = Voice::new();
    assert_eq!(v.sample(Time::new(250, 1000)), 0);
    assert_eq!(v.sample(Time::new(750, 1000)), 0);
}

#[test]
fn builders_keep_other_settings() {
    let a = Voice::new().kind(VoiceKind::Square).frequency(HERTZ).amplitude(9);
    let b = Voice::new().amplitude(9).frequency(HERTZ).kind(VoiceKind::Square);
    for t in 0..10u64 {
        assert_eq!(a.sample(Time::new(t, 10)), b.sample(Time::new(t, 10)));
    }
    assert_eq!(a.sample(Time::new(7, 10)), -9);
}

#[test]
fn extreme_inputs_do_not_panic() {
    for kind in [VoiceKind::Noise, VoiceKind::Saw, VoiceKind::Sine, VoiceKind::Square, VoiceKind::Triangle].iter() {
        for amp in [i32::MIN, i32::MAX, -1, 0, 1].iter() {
            let v = Voice::new().amplitude(*amp).frequency(u32::MAX).kind(*kind);
            for time in [Time::new(u64::MAX, u32::MAX), Time::new(u64::MAX, 1), Time::new(0, 1)].iter() {
                let s = v.sample(*time);
                assert!(s.abs() <= (*amp as i64).abs());
            }
        }
    }
}

#[test]
fn negative_amplitude_inverts() {
    let v = Voice::new().amplitude(-UNIT).frequency(HERTZ).kind(VoiceKind::Saw);
    assert_eq!(v.sample(Time::new(250, 1000)), -(UNIT as i64) / 2);
    assert_eq!(v.sample(Time::new(750, 1000)), UNIT as i64 / 2);
}

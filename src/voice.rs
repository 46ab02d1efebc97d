//! A single waveform generator.
use rand::Rng;
use vstd::prelude::*;
use crate::time::{cycle_of, phase_of, Time};
use crate::wave::{
    level, lemma_level_bounds, lemma_scaled_whole, lemma_scaled_within, level_at, magnitude,
    noise_level, noise_value, scale, scaled, lemma_sine_at_landmarks, VoiceKind, FRACTION_ONE, NOISE_SPAN, UNIT,
};

verus! {

/// A generator of one signal: a waveform shape, an amplitude in output units
/// and a frequency in millihertz.
#[derive(Clone, Copy, Debug)]
pub struct Voice {
    amplitude: i32,
    frequency: u32,
    kind: VoiceKind,
}

/// The sample of a periodic voice `v` at time `time`: its waveform at the
/// phase that `time` reaches, times its amplitude, rounded toward zero.
pub open spec fn tone(v: Voice, time: Time) -> int {
    scaled(
        v.spec_amplitude(),
        level(v.spec_kind(), phase_of(v.spec_frequency(), time) as int, cycle_of(time) as int),
    )
}

/// Whether `r` is a sample that voice `v` may produce at time `time`: the
/// tone for a periodic voice, and for a noise voice the value of some draw
/// in `[0, NOISE_SPAN)`.
pub open spec fn is_sample(v: Voice, time: Time, r: int) -> bool {
    if v.spec_kind() == VoiceKind::Noise {
        exists|d: int| 0 <= d < NOISE_SPAN && r == noise_value(v.spec_amplitude(), d)
    } else {
        r == tone(v, time)
    }
}

/// Every sample that a voice may produce lies within its amplitude; for a
/// noise voice, whatever the draw.
pub proof fn lemma_sample_within_amplitude(v: Voice, time: Time, r: int)
    requires
        time.spec_rate() > 0,
        is_sample(v, time, r),
    ensures
        magnitude(r) <= magnitude(v.spec_amplitude()),
{
    if v.spec_kind() == VoiceKind::Noise {
        let d: int = choose|d: int| 0 <= d < NOISE_SPAN && r == noise_value(v.spec_amplitude(), d);
        lemma_scaled_within(v.spec_amplitude(), d - UNIT, UNIT as int);
    } else {
        let len: int = cycle_of(time) as int;
        let pos: int = phase_of(v.spec_frequency(), time) as int;
        time.lemma_ranges();
        lemma_level_bounds(v.spec_kind(), pos, len);
        let lv: (int, int) = level(v.spec_kind(), pos, len);
        lemma_scaled_within(v.spec_amplitude(), lv.0, lv.1);
    }
}

/// A periodic voice is deterministic: at a given time it can produce one
/// sample alone, so sampling it again at that time gives the same value.
pub proof fn lemma_periodic_sample_is_determined(v: Voice, time: Time, r1: int, r2: int)
    requires
        v.spec_kind() != VoiceKind::Noise,
        is_sample(v, time, r1),
        is_sample(v, time, r2),
    ensures
        r1 == r2,
        r1 == tone(v, time),
{
}

/// A sine voice gives 0 at the start of its cycle, its amplitude at the
/// quarter, 0 at the half and minus its amplitude at three quarters.
pub proof fn lemma_sine_landmarks(v: Voice, time: Time)
    requires
        v.spec_kind() == VoiceKind::Sine,
        time.spec_rate() > 0,
    ensures
        phase_of(v.spec_frequency(), time) == 0 ==> tone(v, time) == 0,
        4 * phase_of(v.spec_frequency(), time) == cycle_of(time) ==> tone(v, time)
            == v.spec_amplitude(),
        2 * phase_of(v.spec_frequency(), time) == cycle_of(time) ==> tone(v, time) == 0,
        4 * phase_of(v.spec_frequency(), time) == 3 * cycle_of(time) ==> tone(v, time)
            == -v.spec_amplitude(),
{
    let len: int = cycle_of(time) as int;
    let pos: int = phase_of(v.spec_frequency(), time) as int;
    lemma_sine_at_landmarks(pos, len);
    lemma_scaled_whole(v.spec_amplitude(), FRACTION_ONE as int);
}

/// A periodic voice repeats with its period. A voice of `f` millihertz
/// completes `n` cycles between two times at one tick rate exactly when the
/// later tick count times `f` exceeds the earlier one times `f` by `n`
/// cycles of phase steps; the two times then give the same tone.
pub proof fn lemma_tone_repeats(v: Voice, t1: Time, t2: Time, n: nat)
    requires
        t1.spec_rate() == t2.spec_rate(),
        t1.spec_rate() > 0,
        t2.spec_ticks() * v.spec_frequency() == t1.spec_ticks() * v.spec_frequency() + n
            * cycle_of(t1),
    ensures
        phase_of(v.spec_frequency(), t2) == phase_of(v.spec_frequency(), t1),
        tone(v, t2) == tone(v, t1),
{
    let len: int = cycle_of(t1) as int;
    let x: int = (t1.spec_ticks() * v.spec_frequency()) as int;
    assert(n * len == len * n) by (nonlinear_arith);
    vstd::arithmetic::div_mod::lemma_mod_multiples_vanish(n as int, x, len);
}

/// A voice of zero frequency stays at the start of its cycle: its phase is
/// 0 at every time, so a square voice gives its amplitude and a saw, sine
/// or triangle voice gives 0.
pub proof fn lemma_zero_frequency(v: Voice, time: Time)
    requires
        v.spec_frequency() == 0,
        time.spec_rate() > 0,
    ensures
        phase_of(v.spec_frequency(), time) == 0,
        v.spec_kind() == VoiceKind::Square ==> tone(v, time) == v.spec_amplitude(),
        v.spec_kind() == VoiceKind::Saw || v.spec_kind() == VoiceKind::Sine || v.spec_kind()
            == VoiceKind::Triangle ==> tone(v, time) == 0,
{
    let len: int = cycle_of(time) as int;
    assert(time.spec_ticks() * 0 == 0);
    assert(0int % len == 0);
    lemma_sine_at_landmarks(0, len);
    time.lemma_ranges();
    lemma_level_bounds(v.spec_kind(), 0, len);
    lemma_scaled_whole(v.spec_amplitude(), level(v.spec_kind(), 0, len).1);
}

/// At a low frequency a voice stays near the start of its cycle: its phase
/// never exceeds `ticks * frequency`, and equals it until one whole cycle
/// has passed. As the frequency falls toward 0 the phase falls toward 0.
pub proof fn lemma_low_frequency_phase(frequency: nat, time: Time)
    requires
        time.spec_rate() > 0,
    ensures
        phase_of(frequency, time) <= time.spec_ticks() * frequency,
        time.spec_ticks() * frequency < cycle_of(time) ==> phase_of(frequency, time)
            == time.spec_ticks() * frequency,
{
    let x: int = (time.spec_ticks() * frequency) as int;
    let len: int = cycle_of(time) as int;
    vstd::arithmetic::div_mod::lemma_mod_decreases(x as nat, len as nat);
    if x < len {
        vstd::arithmetic::div_mod::lemma_small_mod(x as nat, len as nat);
    }
}

/// Relies on rand's `thread_rng().gen_range(0..bound)`: a value drawn
/// uniformly from `[0, bound)` (it panics on an empty range, hence the
/// requirement).
#[verifier::external_body]
fn draw_below(bound: u32) -> (r: u32)
    requires
        bound > 0,
    ensures
        r < bound,
{
    rand::thread_rng().gen_range(0..bound)
}

impl Voice {
    /// The ranges of a voice's amplitude and frequency.
    pub proof fn lemma_ranges(self)
        ensures
            i32::MIN <= self.spec_amplitude() <= i32::MAX,
            self.spec_frequency() <= u32::MAX,
    {
    }

    /// The amplitude, in output units.
    pub closed spec fn spec_amplitude(self) -> int {
        self.amplitude as int
    }

    /// The frequency, in millihertz.
    pub closed spec fn spec_frequency(self) -> nat {
        self.frequency as nat
    }

    /// The waveform shape.
    pub closed spec fn spec_kind(self) -> VoiceKind {
        self.kind
    }

    /// A silent sine voice: amplitude 0, frequency 0.
    pub fn new() -> (v: Voice)
        ensures
            v.spec_amplitude() == 0,
            v.spec_frequency() == 0,
            v.spec_kind() == VoiceKind::Sine,
    {
        Voice { amplitude: 0, frequency: 0, kind: VoiceKind::Sine }
    }

    /// This voice with its amplitude set to `amplitude` output units.
    pub fn amplitude(self, amplitude: i32) -> (v: Voice)
        ensures
            v.spec_amplitude() == amplitude,
            v.spec_frequency() == self.spec_frequency(),
            v.spec_kind() == self.spec_kind(),
    {
        Voice { amplitude, ..self }
    }

    /// This voice with its frequency set to `frequency` millihertz. At
    /// frequency 0 a periodic voice stays at the start of its cycle.
    pub fn frequency(self, frequency: u32) -> (v: Voice)
        ensures
            v.spec_amplitude() == self.spec_amplitude(),
            v.spec_frequency() == frequency,
            v.spec_kind() == self.spec_kind(),
    {
        Voice { frequency, ..self }
    }

    /// This voice with its waveform set to `kind`.
    pub fn kind(self, kind: VoiceKind) -> (v: Voice)
        ensures
            v.spec_amplitude() == self.spec_amplitude(),
            v.spec_frequency() == self.spec_frequency(),
            v.spec_kind() == kind,
    {
        Voice { kind, ..self }
    }

    /// The sample of this voice at time `time`, in output units. A periodic
    /// voice gives its tone, which depends on the voice and the time alone;
    /// a noise voice gives a fresh random value on each call. Either way the
    /// sample lies within the amplitude.
    pub fn sample(&self, time: Time) -> (r: i64)
        ensures
            is_sample(*self, time, r as int),
            self.spec_kind() != VoiceKind::Noise ==> r == tone(*self, time),
            magnitude(r as int) <= magnitude(self.spec_amplitude()),
    {
        match self.kind {
            VoiceKind::Noise => {
                let d: u32 = draw_below(NOISE_SPAN);
                let r: i64 = noise_level(self.amplitude, d);
                assert(0 <= d as int && d < NOISE_SPAN && r == noise_value(
                    self.spec_amplitude(),
                    d as int,
                ));
                r
            },
            _ => {
                let len: u64 = time.cycle_len();
                let pos: u64 = time.phase(self.frequency);
                let (num, den): (i128, i128) = level_at(self.kind, pos, len);
                proof {
                    lemma_level_bounds(self.kind, pos as int, len as int);
                }
                scale(self.amplitude, num, den)
            },
        }
    }
}

} // verus!

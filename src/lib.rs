//! A small additive synthesizer.
//!
//! A [`Voice`] is a periodic waveform generator (or a noise source) with an
//! amplitude, a frequency and a [`VoiceKind`]; a [`Synthesizer`] mixes any
//! number of voices by summing their samples. Time, frequency and amplitude
//! are exact integers: a [`Time`] is a tick count at a tick rate, a
//! frequency is counted in millihertz ([`HERTZ`] to one hertz), and
//! amplitudes and samples are counted in output units, [`UNIT`] of which
//! make a full-scale signal.
mod synthesizer;
mod time;
mod voice;
mod wave;

pub use synthesizer::Synthesizer;
pub use time::{Time, HERTZ};
pub use voice::Voice;
pub use wave::{level_at, noise_level, scale, VoiceKind, MAX_CYCLE, NOISE_SPAN, UNIT};

//! Mixing several voices into one signal.
use vstd::prelude::*;
use crate::time::Time;
use crate::voice::{is_sample, tone, Voice};
use crate::wave::{magnitude, VoiceKind};

verus! {

/// The sum of a sequence of samples.
pub open spec fn total(samples: Seq<int>) -> int
    decreases samples.len(),
{
    if samples.len() == 0 {
        0
    } else {
        total(samples.drop_last()) + samples.last()
    }
}

/// Whether no voice of `voices` is a noise voice.
pub open spec fn all_periodic(voices: Seq<Voice>) -> bool {
    forall|i: int| 0 <= i < voices.len() ==> (#[trigger] voices[i]).spec_kind() != VoiceKind::Noise
}

/// The sum of the tones of `voices` at time `time`.
pub open spec fn mix(voices: Seq<Voice>, time: Time) -> int
    decreases voices.len(),
{
    if voices.len() == 0 {
        0
    } else {
        mix(voices.drop_last(), time) + tone(voices.last(), time)
    }
}

/// Whether `r` is a sum that `voices` may produce at time `time`: the total
/// of one possible sample of each voice.
pub open spec fn is_mix(voices: Seq<Voice>, time: Time, r: int) -> bool {
    exists|samples: Seq<int>|
        {
            &&& samples.len() == voices.len()
            &&& forall|i: int|
                0 <= i < samples.len() ==> #[trigger] is_sample(voices[i], time, samples[i])
            &&& r == total(samples)
        }
}

/// An ordered collection of voices, mixed by summing their samples. The sum
/// is not clipped: keeping it within range is up to the caller.
pub struct Synthesizer {
    voices: Vec<Voice>,
}

impl View for Synthesizer {
    type V = Seq<Voice>;

    closed spec fn view(&self) -> Seq<Voice> {
        self.voices@
    }
}

/// When every voice is periodic, one sample per voice sums to the mix of
/// their tones.
pub proof fn lemma_total_of_periodic(voices: Seq<Voice>, time: Time, samples: Seq<int>)
    requires
        all_periodic(voices),
        samples.len() == voices.len(),
        forall|i: int| 0 <= i < samples.len() ==> #[trigger] is_sample(voices[i], time, samples[i]),
    ensures
        total(samples) == mix(voices, time),
    decreases voices.len(),
{
    if voices.len() > 0 {
        let n: int = voices.len() - 1;
        let rest: Seq<Voice> = voices.drop_last();
        let rest_samples: Seq<int> = samples.drop_last();
        assert forall|i: int| 0 <= i < rest.len() implies (#[trigger] rest[i]).spec_kind()
            != VoiceKind::Noise by {
            assert(rest[i] == voices[i]);
        }
        assert forall|i: int| 0 <= i < rest_samples.len() implies #[trigger] is_sample(
            rest[i],
            time,
            rest_samples[i],
        ) by {
            assert(rest[i] == voices[i]);
            assert(is_sample(voices[i], time, samples[i]));
        }
        lemma_total_of_periodic(rest, time, rest_samples);
        assert(voices[n].spec_kind() != VoiceKind::Noise);
        assert(is_sample(voices[n], time, samples[n]));
    }
}

/// A synthesizer made of periodic voices only is deterministic: at a given
/// time it can produce one sum alone, the mix of the voices' tones.
pub proof fn lemma_periodic_mix_is_determined(voices: Seq<Voice>, time: Time, r1: int, r2: int)
    requires
        all_periodic(voices),
        is_mix(voices, time, r1),
        is_mix(voices, time, r2),
    ensures
        r1 == mix(voices, time),
        r1 == r2,
{
    let s1: Seq<int> = choose|s: Seq<int>|
        {
            &&& s.len() == voices.len()
            &&& forall|i: int| 0 <= i < s.len() ==> #[trigger] is_sample(voices[i], time, s[i])
            &&& r1 == total(s)
        };
    let s2: Seq<int> = choose|s: Seq<int>|
        {
            &&& s.len() == voices.len()
            &&& forall|i: int| 0 <= i < s.len() ==> #[trigger] is_sample(voices[i], time, s[i])
            &&& r2 == total(s)
        };
    lemma_total_of_periodic(voices, time, s1);
    lemma_total_of_periodic(voices, time, s2);
}

/// A synthesizer without voices is silent: its only possible sum is 0.
pub proof fn lemma_empty_is_silent(time: Time, r: int)
    requires
        is_mix(Seq::<Voice>::empty(), time, r),
    ensures
        r == 0,
{
    let s: Seq<int> = choose|s: Seq<int>|
        {
            &&& s.len() == 0
            &&& forall|i: int|
                0 <= i < s.len() ==> #[trigger] is_sample(Seq::<Voice>::empty()[i], time, s[i])
            &&& r == total(s)
        };
}

impl Synthesizer {
    /// A synthesizer without voices.
    pub fn new() -> (s: Synthesizer)
        ensures
            s@ == Seq::<Voice>::empty(),
    {
        Synthesizer { voices: Vec::new() }
    }

    /// Adds `voice` after the voices already present.
    pub fn voice(&mut self, voice: Voice)
        ensures
            final(self)@ == old(self)@.push(voice),
    {
        self.voices.push(voice);
    }

    /// The sum of one sample of each voice at time `time`, taken in the
    /// order in which the voices were added. Without noise voices it is the
    /// sum of their tones; without voices it is 0.
    pub fn sample(&self, time: Time) -> (r: i128)
        ensures
            is_mix(self@, time, r as int),
            all_periodic(self@) ==> r == mix(self@, time),
            self@.len() == 0 ==> r == 0,
    {
        let mut acc: i128 = 0;
        let mut i: usize = 0;
        let ghost mut samples: Seq<int> = Seq::empty();
        while i < self.voices.len()
            invariant
                i <= self.voices@.len(),
                samples.len() == i,
                forall|j: int|
                    0 <= j < i ==> #[trigger] is_sample(self.voices@[j], time, samples[j]),
                acc == total(samples),
                magnitude(acc as int) <= i * 0x8000_0000,
            decreases self.voices@.len() - i,
        {
            let s: i64 = self.voices[i].sample(time);
            proof {
                let before: Seq<int> = samples;
                samples = samples.push(s as int);
                assert(samples.drop_last() =~= before);
                assert(is_sample(self.voices@[i as int], time, samples[i as int]));
                assert forall|j: int| 0 <= j < i + 1 implies #[trigger] is_sample(
                    self.voices@[j],
                    time,
                    samples[j],
                ) by {
                    if j < i {
                        assert(samples[j] == before[j]);
                    }
                }
                self.voices@[i as int].lemma_ranges();
            }
            acc = acc + s as i128;
            i = i + 1;
        }
        proof {
            assert(is_mix(self@, time, acc as int));
            if all_periodic(self@) {
                lemma_total_of_periodic(self@, time, samples);
            }
        }
        acc
    }
}

} // verus!

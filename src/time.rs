//! Points in time, as a whole number of ticks at a fixed tick rate.
use vstd::prelude::*;
use crate::wave::MAX_CYCLE;

verus! {

/// Millihertz in one hertz: frequencies are counted in millihertz.
pub const HERTZ: u32 = 1000;

/// The instant `ticks / rate` seconds after the start of a stream, for a
/// positive tick rate (typically the output's sample rate). A time is never
/// negative, so a phase always lies in `[0, 1)` of a cycle.
#[derive(Clone, Copy, Debug)]
pub struct Time {
    ticks: u64,
    rate: u32,
}

/// The number of phase steps in one cycle at time `time`: a phase is counted
/// in steps of one tick times one millihertz.
pub open spec fn cycle_of(time: Time) -> nat {
    time.spec_rate() * (HERTZ as nat)
}

/// The phase at time `time` of a signal of `frequency` millihertz, in steps
/// out of `cycle_of(time)`: the fractional part of `time * frequency`.
pub open spec fn phase_of(frequency: nat, time: Time) -> nat {
    (time.spec_ticks() * frequency) % cycle_of(time)
}

impl Time {
    #[verifier::type_invariant]
    spec fn rate_is_positive(self) -> bool {
        self.rate > 0
    }

    /// The ranges of a time's tick count and tick rate.
    pub proof fn lemma_ranges(self)
        ensures
            self.spec_ticks() <= u64::MAX,
            self.spec_rate() <= u32::MAX,
    {
    }

    /// The number of ticks.
    pub closed spec fn spec_ticks(self) -> nat {
        self.ticks as nat
    }

    /// The number of ticks in one second.
    pub closed spec fn spec_rate(self) -> nat {
        self.rate as nat
    }

    /// The instant `ticks / rate` seconds.
    pub fn new(ticks: u64, rate: u32) -> (t: Time)
        requires
            rate > 0,
        ensures
            t.spec_ticks() == ticks,
            t.spec_rate() == rate,
    {
        Time { ticks, rate }
    }

    /// The number of ticks.
    pub fn ticks(&self) -> (r: u64)
        ensures
            r == self.spec_ticks(),
    {
        self.ticks
    }

    /// The number of ticks in one second, always positive.
    pub fn rate(&self) -> (r: u32)
        ensures
            r == self.spec_rate(),
            r > 0,
    {
        proof {
            use_type_invariant(self);
        }
        self.rate
    }

    /// The number of phase steps in one cycle.
    pub fn cycle_len(&self) -> (r: u64)
        ensures
            r == cycle_of(*self),
            0 < r <= MAX_CYCLE,
    {
        let rate: u32 = self.rate();
        rate as u64 * HERTZ as u64
    }

    /// The phase at this time of a signal of `frequency` millihertz.
    pub fn phase(&self, frequency: u32) -> (r: u64)
        ensures
            r == phase_of(frequency as nat, *self),
            r < cycle_of(*self),
    {
        let len: u64 = self.cycle_len();
        assert(self.ticks * frequency <= 0xffff_ffff_ffff_ffff * 0xffff_ffff) by (nonlinear_arith)
            requires
                self.ticks <= 0xffff_ffff_ffff_ffff,
                frequency <= 0xffff_ffff,
        ;
        ((self.ticks as u128 * frequency as u128) % (len as u128)) as u64
    }
}

} // verus!

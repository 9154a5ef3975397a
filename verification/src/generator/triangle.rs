//! A triangle oscillator.
//!
//! The wave is `|4·u mod 4 − 2| − 1` of the cycle fraction `u`: it starts a
//! cycle at +1, falls linearly to −1 over the first half-cycle and rises
//! back to +1 over the second.  Every sample is pinned exactly.

use vstd::prelude::*;
use crate::generator::{cycle_pos, cycle_pos_spec, Generator};
use crate::poly_sample::PolySample;
use crate::sample_timing::{phase_numerator, SampleTiming};
use crate::ConfigurationError;

verus! {

/// A fixed-frequency triangle oscillator; stateless apart from its
/// configuration.
#[derive(Clone, Copy, Debug, PartialEq, Eq, Structural)]
pub struct TriangleGenerator {
    /// Frequency in millionths of one hertz; positive.
    pub frequency: u64,
}

/// One cycle of the triangle at cycle position `pos` (fixed-point steps of a
/// cycle): `|4·pos − 2| − 1` in fixed point.
pub open spec fn triangle_wave_spec(pos: int) -> int {
    if 4 * pos < 2_000_000 {
        1_000_000 - 4 * pos
    } else {
        4 * pos - 3_000_000
    }
}

/// The oscillator's sample at a given clock position.
pub open spec fn triangle_sample_spec(rate: int, clock: int, frequency: int) -> int {
    triangle_wave_spec(
        cycle_pos_spec(phase_numerator(rate, clock, frequency), rate * frequency, frequency),
    )
}

/// One cycle of the triangle, pinned to its spec and bounded by one.
pub fn triangle_wave(pos: u64) -> (r: i64)
    requires
        pos < 1_000_000,
    ensures
        r as int == triangle_wave_spec(pos as int),
        -1_000_000 <= r <= 1_000_000,
{
    let u: u64 = 4 * pos;
    if u < 2_000_000 {
        1_000_000 - (u as i64)
    } else {
        (u as i64) - 3_000_000
    }
}

impl TriangleGenerator {
    /// An oscillator at `frequency` millionths of one hertz; a zero
    /// frequency is rejected.
    pub fn new(frequency: u64) -> (r: Result<TriangleGenerator, ConfigurationError>)
        ensures
            match r {
                Ok(g) => frequency >= 1 && g.frequency == frequency,
                Err(e) => frequency == 0 && e == ConfigurationError::ZeroFrequency,
            },
    {
        if frequency == 0 {
            Err(ConfigurationError::ZeroFrequency)
        } else {
            Ok(TriangleGenerator { frequency })
        }
    }
}

impl Default for TriangleGenerator {
    /// Concert pitch: 440 Hz.
    fn default() -> (r: TriangleGenerator)
        ensures
            r.frequency == 440_000_000u64,
    {
        TriangleGenerator { frequency: 440_000_000 }
    }
}

impl Generator for TriangleGenerator {
    open spec fn ready(&self, timing: SampleTiming) -> bool {
        &&& self.frequency >= 1
        &&& timing.sample_rate >= 1
        &&& (self.frequency as int) * (timing.sample_rate as int) <= u64::MAX as int
    }

    open spec fn produced(&self, timing: SampleTiming, next: TriangleGenerator, out: Seq<i64>) -> bool {
        &&& next == *self
        &&& out == seq![
            triangle_sample_spec(
                timing.sample_rate as int,
                timing.clock as int,
                self.frequency as int,
            ) as i64,
        ]
    }

    proof fn ready_monotone(&self, t1: SampleTiming, t2: SampleTiming) {
    }

    fn generate(&mut self, sample_timing: &SampleTiming) -> (r: PolySample)
        ensures
            *final(self) == *old(self),
            r@ =~= seq![
                triangle_sample_spec(
                    sample_timing.sample_rate as int,
                    sample_timing.clock as int,
                    old(self).frequency as int,
                ) as i64,
            ],
    {
        let phase = match sample_timing.sample_clock_with_frequency(self.frequency) {
            Ok(p) => p,
            Err(_) => unreached(),
        };
        proof {
            assert((phase.num as int) * (self.frequency as int) < (phase.den as int) * 1_000_000)
                by (nonlinear_arith)
                requires
                    (phase.num as int) < (sample_timing.sample_rate as int) * 1_000_000,
                    phase.den as int == (sample_timing.sample_rate as int) * (
                    self.frequency as int),
                    self.frequency >= 1,
                    sample_timing.sample_rate >= 1,
            ;
        }
        let pos = cycle_pos(&phase, self.frequency);
        let v = triangle_wave(pos);
        PolySample::mono(v)
    }
}

} // verus!

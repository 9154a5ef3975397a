//! A sine-like oscillator.
//!
//! The waveform is the classic parabolic approximation of one sine cycle:
//! over the first half-cycle the quadratic `16·x·(1/2 − x)` (which peaks at
//! exactly 1), negated over the second half-cycle.  Its contract pins the
//! exact sample for every tick, and the wave is bounded by one, starts each
//! cycle at zero and is antisymmetric between the two half-cycles.

use vstd::prelude::*;
use crate::generator::{cycle_pos, cycle_pos_spec, Generator};
use crate::poly_sample::PolySample;
use crate::sample_timing::{phase_numerator, SampleTiming};
use crate::ConfigurationError;

verus! {

/// A fixed-frequency sine-like oscillator; stateless apart from its
/// configuration.
#[derive(Clone, Copy, Debug, PartialEq, Eq, Structural)]
pub struct SineGenerator {
    /// Frequency in millionths of one hertz; positive.
    pub frequency: u64,
}

/// The rising half of the wave on `[0, 500_000)` cycle steps:
/// `16·x·(1/2 − x)` in fixed point, peaking at one million.
pub open spec fn half_wave_spec(x: int) -> int {
    16 * x * (500_000 - x) / 1_000_000
}

/// One cycle of the approximated sine at cycle position `pos`.
pub open spec fn sine_wave_spec(pos: int) -> int {
    if pos < 500_000 {
        half_wave_spec(pos)
    } else {
        -half_wave_spec(pos - 500_000)
    }
}

/// The oscillator's sample at a given clock position: the wave evaluated at
/// the drift-free cycle position of that tick.
pub open spec fn sine_sample_spec(rate: int, clock: int, frequency: int) -> int {
    sine_wave_spec(
        cycle_pos_spec(phase_numerator(rate, clock, frequency), rate * frequency, frequency),
    )
}

/// The rising half-wave, exactly as specified, bounded by one.
fn half_wave(x: u64) -> (r: i64)
    requires
        x < 500_000,
    ensures
        r as int == half_wave_spec(x as int),
        0 <= r <= 1_000_000,
{
    proof {
        assert(16 * (x as int) * (500_000 - x as int) <= 1_000_000_000_000) by (nonlinear_arith)
            requires
                0 <= x < 500_000,
        ;
        assert(16 * (x as int) * (500_000 - x as int) >= 0) by (nonlinear_arith)
            requires
                0 <= x < 500_000,
        ;
        vstd::arithmetic::div_mod::lemma_div_is_ordered(
            16 * (x as int) * (500_000 - x as int),
            1_000_000_000_000,
            1_000_000,
        );
        vstd::arithmetic::div_mod::lemma_div_pos_is_pos(
            16 * (x as int) * (500_000 - x as int),
            1_000_000,
        );
    }
    let p: u64 = 16 * x * (500_000 - x);
    (p / 1_000_000) as i64
}

/// One cycle of the approximated sine, pinned to its spec and bounded by one.
pub fn sine_wave(pos: u64) -> (r: i64)
    requires
        pos < 1_000_000,
    ensures
        r as int == sine_wave_spec(pos as int),
        -1_000_000 <= r <= 1_000_000,
{
    if pos < 500_000 {
        half_wave(pos)
    } else {
        -half_wave(pos - 500_000)
    }
}

/// The wave starts each cycle at zero and the second half-cycle mirrors the
/// first with opposite sign.
pub proof fn lemma_sine_wave_shape(pos: int)
    requires
        0 <= pos < 500_000,
    ensures
        sine_wave_spec(0) == 0,
        sine_wave_spec(pos + 500_000) == -sine_wave_spec(pos),
{
}

impl SineGenerator {
    /// An oscillator at `frequency` millionths of one hertz; a zero
    /// frequency is rejected.
    pub fn new(frequency: u64) -> (r: Result<SineGenerator, ConfigurationError>)
        ensures
            match r {
                Ok(g) => frequency >= 1 && g.frequency == frequency,
                Err(e) => frequency == 0 && e == ConfigurationError::ZeroFrequency,
            },
    {
        if frequency == 0 {
            Err(ConfigurationError::ZeroFrequency)
        } else {
            Ok(SineGenerator { frequency })
        }
    }
}

impl Default for SineGenerator {
    /// Concert pitch: 440 Hz.
    fn default() -> (r: SineGenerator)
        ensures
            r.frequency == 440_000_000u64,
    {
        SineGenerator { frequency: 440_000_000 }
    }
}

impl Generator for SineGenerator {
    open spec fn ready(&self, timing: SampleTiming) -> bool {
        &&& self.frequency >= 1
        &&& timing.sample_rate >= 1
        &&& (self.frequency as int) * (timing.sample_rate as int) <= u64::MAX as int
    }

    open spec fn produced(&self, timing: SampleTiming, next: SineGenerator, out: Seq<i64>) -> bool {
        &&& next == *self
        &&& out == seq![
            sine_sample_spec(
                timing.sample_rate as int,
                timing.clock as int,
                self.frequency as int,
            ) as i64,
        ]
    }

    proof fn ready_monotone(&self, t1: SampleTiming, t2: SampleTiming) {
    }

    fn generate(&mut self, sample_timing: &SampleTiming) -> (r: PolySample)
        ensures
            *final(self) == *old(self),
            r@ =~= seq![
                sine_sample_spec(
                    sample_timing.sample_rate as int,
                    sample_timing.clock as int,
                    old(self).frequency as int,
                ) as i64,
            ],
    {
        let phase = match sample_timing.sample_clock_with_frequency(self.frequency) {
            Ok(p) => p,
            Err(_) => unreached(),
        };
        proof {
            assert((phase.num as int) * (self.frequency as int) < (phase.den as int) * 1_000_000)
                by (nonlinear_arith)
                requires
                    (phase.num as int) < (sample_timing.sample_rate as int) * 1_000_000,
                    phase.den as int == (sample_timing.sample_rate as int) * (
                    self.frequency as int),
                    self.frequency >= 1,
                    sample_timing.sample_rate >= 1,
            ;
        }
        let pos = cycle_pos(&phase, self.frequency);
        let v = sine_wave(pos);
        PolySample::mono(v)
    }
}

} // verus!

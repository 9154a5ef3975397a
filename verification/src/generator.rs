//! Timing-driven producers of waveform and control frames.
//!
//! A [`Generator`] turns the current [`SampleTiming`] into one
//! [`PolySample`], possibly updating internal state.  Readiness is a
//! spec-level precondition that, once established for a clock position,
//! holds for every later position at the same sample rate, so a generator
//! driven tick by tick stays callable forever.

use vstd::prelude::*;
use crate::poly_sample::PolySample;
use crate::sample_timing::{SampleTiming, Seconds};

pub mod adsr;
pub mod sine;
pub mod triangle;

verus! {

/// A timing-driven producer of raw waveform or control data.
pub trait Generator: Sized {
    /// When the generator may be asked for a frame at `timing`.
    spec fn ready(&self, timing: SampleTiming) -> bool;

    /// What one tick is allowed to do: the relation between the generator's
    /// state before the tick, its state after it, and the frame it produced.
    /// `generate` guarantees this relation, so callers can tie their own
    /// output to the generator's actual frame.
    spec fn produced(&self, timing: SampleTiming, next: Self, out: Seq<i64>) -> bool;

    /// Readiness never expires as the clock advances at a fixed rate.
    proof fn ready_monotone(&self, t1: SampleTiming, t2: SampleTiming)
        requires
            self.ready(t1),
            t2.sample_rate == t1.sample_rate,
            t1.clock <= t2.clock,
        ensures
            self.ready(t2),
    ;

    /// Produce this tick's frame.
    fn generate(&mut self, sample_timing: &SampleTiming) -> (r: PolySample)
        requires
            old(self).ready(*sample_timing),
        ensures
            old(self).produced(*sample_timing, *final(self), r@),
            forall|t2: SampleTiming|
                t2.sample_rate == sample_timing.sample_rate && t2.clock >= sample_timing.clock
                    ==> #[trigger] final(self).ready(t2),
    ;
}

/// The position within one cycle, scaled to `[0, 1_000_000)`: the floor of
/// `phase * frequency` in fixed-point steps, for a phase of `num / den`
/// seconds.
pub open spec fn cycle_pos_spec(num: int, den: int, frequency: int) -> int
    recommends
        den >= 1,
{
    num * frequency / den
}

/// Scale a phase in `[0, 1/frequency)` seconds to a cycle position in
/// `[0, 1_000_000)` fixed-point steps.
pub fn cycle_pos(phase: &Seconds, frequency: u64) -> (r: u64)
    requires
        phase.den >= 1,
        (phase.num as int) * (frequency as int) < (phase.den as int) * 1_000_000,
    ensures
        r as int == cycle_pos_spec(phase.num as int, phase.den as int, frequency as int),
        r < 1_000_000,
{
    proof {
        assert((phase.num as u128) * (frequency as u128) <= 0xFFFF_FFFF_FFFF_FFFFu128
            * 0xFFFF_FFFF_FFFF_FFFFu128) by (nonlinear_arith)
            requires
                phase.num <= 0xFFFF_FFFF_FFFF_FFFFu64,
                frequency <= 0xFFFF_FFFF_FFFF_FFFFu64,
        ;
    }
    let p: u128 = (phase.num as u128) * (frequency as u128);
    proof {
        vstd::arithmetic::div_mod::lemma_multiply_divide_lt(
            p as int,
            phase.den as int,
            1_000_000,
        );
    }
    let q: u128 = p / (phase.den as u128);
    q as u64
}

} // verus!

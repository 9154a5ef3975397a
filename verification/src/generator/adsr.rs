//! The attack–decay–sustain–release envelope.
//!
//! The level is a piecewise function of the elapsed time `clock / rate`:
//! a ramp from zero to one over the attack, a ramp from one down to the
//! sustain level over the decay, the sustain level held for the sustain
//! time, a ramp from the sustain level to zero over the release, and zero
//! ever after.  All boundaries are exact rational comparisons, so the
//! envelope is pinned sample by sample.

use vstd::prelude::*;
use crate::generator::Generator;
use crate::poly_sample::PolySample;
use crate::sample_timing::SampleTiming;

verus! {

/// An attack–decay–sustain–release envelope generator.  Durations are in
/// millionths of one second, the sustain level in millionths of full scale.
#[derive(Clone, Copy, Debug, PartialEq, Eq, Structural)]
pub struct AdsrGenerator {
    /// Ramp time from zero to full scale.
    pub attack: u64,
    /// Ramp time from full scale down to the sustain level.
    pub decay: u64,
    /// Held level during the sustain phase, in `[0, 1_000_000]`.
    pub sustain_level: i64,
    /// How long the sustain level is held.
    pub sustain: u64,
    /// Ramp time from the sustain level down to zero.
    pub release: u64,
}

/// The envelope level at tick `clock` of a clock running at `rate`:
/// the piecewise attack/decay/sustain/release shape, evaluated with exact
/// integer arithmetic (divisions round down).
pub open spec fn adsr_level_spec(
    rate: int,
    clock: int,
    attack: int,
    decay: int,
    sustain_level: int,
    sustain: int,
    release: int,
) -> int {
    let cf = clock * 1_000_000;
    if cf < attack * rate {
        cf * 1_000_000 / (attack * rate)
    } else if cf - attack * rate < decay * rate {
        1_000_000 - (cf - attack * rate) * (1_000_000 - sustain_level) / (decay * rate)
    } else if cf - attack * rate - decay * rate < sustain * rate {
        sustain_level
    } else if cf - attack * rate - decay * rate - sustain * rate < release * rate {
        (1_000_000 - (cf - attack * rate - decay * rate - sustain * rate) * 1_000_000 / (release
            * rate)) * sustain_level / 1_000_000
    } else {
        0
    }
}

impl AdsrGenerator {
    /// An envelope with the given phase durations and sustain level.
    pub fn new(attack: u64, decay: u64, sustain_level: i64, sustain: u64, release: u64) -> (r:
        AdsrGenerator)
        ensures
            r.attack == attack,
            r.decay == decay,
            r.sustain_level == sustain_level,
            r.sustain == sustain,
            r.release == release,
    {
        AdsrGenerator { attack, decay, sustain_level, sustain, release }
    }

    /// The whole envelope's span: attack + decay + sustain + release.
    pub fn total_duration(&self) -> (r: u64)
        requires
            self.attack + self.decay + self.sustain + self.release <= u64::MAX,
        ensures
            r == self.attack + self.decay + self.sustain + self.release,
    {
        self.attack + self.decay + self.sustain + self.release
    }
}

impl Default for AdsrGenerator {
    /// A degenerate envelope that holds full scale for no time at all:
    /// every phase empty, sustain level one.
    fn default() -> (r: AdsrGenerator)
        ensures
            r.attack == 0,
            r.decay == 0,
            r.sustain_level == 1_000_000i64,
            r.sustain == 0,
            r.release == 0,
    {
        AdsrGenerator { attack: 0, decay: 0, sustain_level: 1_000_000, sustain: 0, release: 0 }
    }
}

impl Generator for AdsrGenerator {
    open spec fn ready(&self, timing: SampleTiming) -> bool {
        &&& timing.sample_rate >= 1
        &&& 0 <= self.sustain_level <= 1_000_000
    }

    open spec fn produced(&self, timing: SampleTiming, next: AdsrGenerator, out: Seq<i64>) -> bool {
        &&& next == *self
        &&& out == seq![
            adsr_level_spec(
                timing.sample_rate as int,
                timing.clock as int,
                self.attack as int,
                self.decay as int,
                self.sustain_level as int,
                self.sustain as int,
                self.release as int,
            ) as i64,
        ]
    }

    proof fn ready_monotone(&self, t1: SampleTiming, t2: SampleTiming) {
    }

    fn generate(&mut self, sample_timing: &SampleTiming) -> (r: PolySample)
        ensures
            *final(self) == *old(self),
            r@ =~= seq![
                adsr_level_spec(
                    sample_timing.sample_rate as int,
                    sample_timing.clock as int,
                    old(self).attack as int,
                    old(self).decay as int,
                    old(self).sustain_level as int,
                    old(self).sustain as int,
                    old(self).release as int,
                ) as i64,
            ],
            0 <= r@[0] <= 1_000_000,
    {
        let rate: u128 = sample_timing.sample_rate as u128;
        let cf: u128 = (sample_timing.clock as u128) * 1_000_000;
        proof {
            lemma_u64_u32_product_fits(self.attack as int, rate as int);
            lemma_u64_u32_product_fits(self.decay as int, rate as int);
            lemma_u64_u32_product_fits(self.sustain as int, rate as int);
            lemma_u64_u32_product_fits(self.release as int, rate as int);
        }
        let ar: u128 = (self.attack as u128) * rate;
        let dr: u128 = (self.decay as u128) * rate;
        let sr: u128 = (self.sustain as u128) * rate;
        let rr: u128 = (self.release as u128) * rate;
        let level: i64 = if cf < ar {
            proof {
                assert(cf as int * 1_000_000 < ar as int * 1_000_000) by (nonlinear_arith)
                    requires
                        (cf as int) < ar as int,
                ;
                vstd::arithmetic::div_mod::lemma_multiply_divide_lt(
                    cf as int * 1_000_000,
                    ar as int,
                    1_000_000,
                );
            }
            ((cf * 1_000_000) / ar) as i64
        } else if cf - ar < dr {
            let c2: u128 = cf - ar;
            let fall: u128 = (1_000_000 - self.sustain_level) as u128;
            proof {
                assert(c2 * fall < dr * 1_000_000 + dr) by (nonlinear_arith)
                    requires
                        c2 < dr,
                        0 <= fall <= 1_000_000,
                ;
                assert(c2 * fall <= c2 * 1_000_000) by (nonlinear_arith)
                    requires
                        0 <= fall <= 1_000_000,
                        c2 >= 0,
                ;
                assert(c2 * 1_000_000 < dr * 1_000_000) by (nonlinear_arith)
                    requires
                        c2 < dr,
                ;
                vstd::arithmetic::div_mod::lemma_multiply_divide_lt(
                    c2 as int * fall as int,
                    dr as int,
                    1_000_000,
                );
            }
            let t: u128 = (c2 * fall) / dr;
            1_000_000 - (t as i64)
        } else if cf - ar - dr < sr {
            self.sustain_level
        } else if cf - ar - dr - sr < rr {
            let c4: u128 = cf - ar - dr - sr;
            proof {
                assert(c4 as int * 1_000_000 < rr as int * 1_000_000) by (nonlinear_arith)
                    requires
                        (c4 as int) < rr as int,
                ;
                vstd::arithmetic::div_mod::lemma_multiply_divide_lt(
                    c4 as int * 1_000_000,
                    rr as int,
                    1_000_000,
                );
            }
            let t4: u128 = (c4 * 1_000_000) / rr;
            let v1: u128 = 1_000_000 - t4;
            proof {
                assert(v1 * (self.sustain_level as u128) <= 1_000_000 * 1_000_000)
                    by (nonlinear_arith)
                    requires
                        v1 <= 1_000_000,
                        0 <= self.sustain_level <= 1_000_000,
                ;
                vstd::arithmetic::div_mod::lemma_div_is_ordered(
                    v1 as int * (self.sustain_level as int),
                    1_000_000_000_000int,
                    1_000_000,
                );
                vstd::arithmetic::div_mod::lemma_div_pos_is_pos(
                    v1 as int * (self.sustain_level as int),
                    1_000_000,
                );
                assert(v1 as int * (self.sustain_level as int) >= 0) by (nonlinear_arith)
                    requires
                        v1 >= 0,
                        self.sustain_level >= 0,
                ;
            }
            ((v1 * (self.sustain_level as u128)) / 1_000_000) as i64
        } else {
            0
        };
        PolySample::mono(level)
    }
}

/// The product of a 64-bit count and a 32-bit rate fits well inside 128 bits.
proof fn lemma_u64_u32_product_fits(a: int, b: int)
    requires
        0 <= a <= 0xFFFF_FFFF_FFFF_FFFF,
        0 <= b <= 0xFFFF_FFFF,
    ensures
        a * b <= 0xFFFF_FFFF_FFFF_FFFF * 0xFFFF_FFFF,
{
    assert(a * b <= 0xFFFF_FFFF_FFFF_FFFF * 0xFFFF_FFFF) by (nonlinear_arith)
        requires
            0 <= a <= 0xFFFF_FFFF_FFFF_FFFF,
            0 <= b <= 0xFFFF_FFFF,
    ;
}

} // verus!

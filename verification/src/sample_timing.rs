//! The discrete sample clock and its drift-free phase arithmetic.
//!
//! A [`SampleTiming`] is a sample rate together with a monotonic tick count.
//! Phase queries return an exact rational number of [`Seconds`], so periodic
//! signals derived from them never drift, however long the clock runs.

use vstd::prelude::*;
use crate::fixed::mul_div_floor;
use crate::ConfigurationError;

verus! {

/// An exact, non-negative rational number of seconds.
#[derive(Clone, Copy, Debug, PartialEq, Eq, Structural)]
pub struct Seconds {
    /// Numerator.
    pub num: u64,
    /// Denominator; always at least 1 where the library hands a value out.
    pub den: u64,
}

/// The sample clock: a fixed sample rate in frames per second and the number
/// of frames produced so far.  One tick is one produced frame.
#[derive(Clone, Copy, Debug, PartialEq, Eq, Structural)]
pub struct SampleTiming {
    /// Frames per second; positive.
    pub sample_rate: u32,
    /// Monotonic count of produced frames.
    pub clock: u64,
}

/// `frequency` (in millionths of one hertz) rounded up to whole hertz.
pub open spec fn whole_units_ceil(frequency: int) -> int {
    (frequency + 999_999) / 1_000_000
}

/// The integer period length, in samples, that covers an exact whole number
/// of cycles of `frequency`: `ceil(frequency) * sample_rate / frequency`.
pub open spec fn period_sample_count(rate: int, frequency: int) -> int {
    whole_units_ceil(frequency) * rate * 1_000_000 / frequency
}

/// Numerator of the phase within one cycle of `frequency` at tick `clock`,
/// over the denominator `rate * frequency`: the clock is reduced modulo the
/// whole-cycle period, converted to seconds, and folded into `[0, 1/frequency)`.
pub open spec fn phase_numerator(rate: int, clock: int, frequency: int) -> int {
    ((clock % period_sample_count(rate, frequency)) * frequency) % (rate * 1_000_000)
}

/// Whole cycles of a window of `length` (millionths of a second) that fit in
/// one second, rounded up: `ceil(1 / length)`.
pub open spec fn whole_cycles_ceil(length: int) -> int {
    (1_000_000 + length - 1) / length
}

/// The integer period length, in samples, covering a whole number of windows
/// of `length`: `length * sample_rate * ceil(1 / length)`.
pub open spec fn period_sample_count_len(rate: int, length: int) -> int {
    length * rate * whole_cycles_ceil(length) / 1_000_000
}

/// Numerator of the position within one window of `length` at tick `clock`,
/// over the denominator `rate * 1_000_000`.
pub open spec fn phase_numerator_len(rate: int, clock: int, length: int) -> int {
    ((clock % period_sample_count_len(rate, length)) * 1_000_000) % (rate * length)
}

impl Default for SampleTiming {
    /// A clock at tick zero with a 44 kHz sample rate.
    fn default() -> (r: SampleTiming)
        ensures
            r.sample_rate == 44_000u32,
            r.clock == 0,
    {
        SampleTiming { sample_rate: 44_000, clock: 0 }
    }
}

impl SampleTiming {
    /// A clock at tick zero with the given positive sample rate.
    pub fn new(sample_rate: u32) -> (r: SampleTiming)
        requires
            sample_rate >= 1,
        ensures
            r.sample_rate == sample_rate,
            r.clock == 0,
    {
        SampleTiming { sample_rate, clock: 0 }
    }

    /// Advance the clock by exactly one produced frame.
    pub fn tick(&mut self)
        requires
            old(self).clock < u64::MAX,
        ensures
            final(self).sample_rate == old(self).sample_rate,
            final(self).clock == old(self).clock + 1,
    {
        self.clock = self.clock + 1;
    }

    /// The clock as seconds since tick zero: `clock / sample_rate`, exact.
    ///
    /// Drifts only in the sense that its denominator never folds a periodic
    /// signal; use the frequency- or length-aware queries for those.
    pub fn sample_clock(&self) -> (r: Seconds)
        requires
            self.sample_rate >= 1,
        ensures
            r.num == self.clock,
            r.den == self.sample_rate,
    {
        Seconds { num: self.clock, den: self.sample_rate as u64 }
    }

    /// How many whole samples a duration of `duration` millionths of a second
    /// covers: `floor(duration * sample_rate)`.
    pub fn duration_to_sample_count(&self, duration: u64) -> (r: usize)
        requires
            self.sample_rate >= 1,
            duration as int * self.sample_rate as int / 1_000_000 <= usize::MAX as int,
        ensures
            r as int == duration as int * self.sample_rate as int / 1_000_000,
    {
        let n = mul_div_floor(duration, self.sample_rate as u64, 1_000_000);
        n as usize
    }

    /// The phase within one cycle of `frequency` (millionths of a hertz), as
    /// exact rational seconds in `[0, 1/frequency)`.
    ///
    /// The clock is first reduced modulo an integer number of samples that
    /// covers a whole number of cycles, so the result is exactly periodic:
    /// no drift accumulates over an arbitrary run length.
    pub fn sample_clock_with_frequency(&self, frequency: u64) -> (r: Result<
        Seconds,
        ConfigurationError,
    >)
        requires
            self.sample_rate >= 1,
            frequency as int * self.sample_rate as int <= u64::MAX as int,
        ensures
            match r {
                Ok(phase) => {
                    &&& frequency >= 1
                    &&& phase.den as int == self.sample_rate as int * frequency as int
                    &&& phase.den >= 1
                    &&& phase.num as int == phase_numerator(
                        self.sample_rate as int,
                        self.clock as int,
                        frequency as int,
                    )
                    &&& (phase.num as int) < (self.sample_rate as int) * 1_000_000
                },
                Err(e) => frequency == 0 && e == ConfigurationError::ZeroFrequency,
            },
    {
        if frequency == 0 {
            return Err(ConfigurationError::ZeroFrequency);
        }
        let ghost ratei = self.sample_rate as int;
        let ghost fi = frequency as int;
        proof {
            lemma_period_bounds(ratei, fi);
        }
        let units: u128 = ((frequency as u128) + 999_999) / 1_000_000;
        proof {
            assert(units as int == whole_units_ceil(fi));
            vstd::arithmetic::div_mod::lemma_div_nonincreasing(fi + 999_999, 1_000_000);
            assert(units as int <= fi + 999_999);
            assert(units * (self.sample_rate as u128) * 1_000_000 < 0x8000_0000_0000_0000_0000_0000_0000_0000u128)
                by (nonlinear_arith)
                requires
                    units <= 0x1_0000_0000_0000_0000u128 + 999_999,
                    self.sample_rate <= 0xFFFF_FFFFu32,
            ;
        }
        let l_num: u128 = units * (self.sample_rate as u128) * 1_000_000;
        let period_wide: u128 = l_num / (frequency as u128);
        proof {
            assert(period_wide as int == period_sample_count(ratei, fi));
            assert(ratei * 1_000_000 <= 0xFFFF_FFFF * 1_000_000);
        }
        let period: u64 = period_wide as u64;
        proof {
            assert(period >= 1);
        }
        let r_clk: u64 = self.clock % period;
        proof {
            assert((r_clk as u128) * (frequency as u128) <= 0xFFFF_FFFF_FFFF_FFFFu128
                * 0xFFFF_FFFF_FFFF_FFFFu128) by (nonlinear_arith)
                requires
                    r_clk <= 0xFFFF_FFFF_FFFF_FFFFu64,
                    frequency <= 0xFFFF_FFFF_FFFF_FFFFu64,
            ;
            assert((self.sample_rate as u128) * 1_000_000 >= 1_000_000) by (nonlinear_arith)
                requires self.sample_rate >= 1,
            ;
            vstd::arithmetic::div_mod::lemma_mod_division_less_than_divisor(
                (r_clk as int) * fi,
                ratei * 1_000_000,
            );
        }
        let num_wide: u128 = ((r_clk as u128) * (frequency as u128)) % (
        (self.sample_rate as u128) * 1_000_000);
        proof {
            vstd::arithmetic::mul::lemma_mul_is_commutative(fi, ratei);
            assert(ratei * fi >= 1) by (nonlinear_arith)
                requires
                    ratei >= 1,
                    fi >= 1,
            ;
        }
        let den: u64 = (self.sample_rate as u64) * frequency;
        Ok(Seconds { num: num_wide as u64, den })
    }

    /// The position within one repeating window of `length` millionths of a
    /// second, as exact rational seconds in `[0, length)`; the analogue of
    /// [`Self::sample_clock_with_frequency`] for a fixed duration.
    pub fn sample_clock_with_length(&self, length: u64) -> (r: Result<Seconds, ConfigurationError>)
        requires
            self.sample_rate >= 1,
            length as int * self.sample_rate as int + self.sample_rate as int <= u64::MAX as int,
        ensures
            match r {
                Ok(pos) => {
                    &&& length >= 1
                    &&& pos.den as int == self.sample_rate as int * 1_000_000
                    &&& pos.den >= 1
                    &&& pos.num as int == phase_numerator_len(
                        self.sample_rate as int,
                        self.clock as int,
                        length as int,
                    )
                    &&& (pos.num as int) < (self.sample_rate as int) * (length as int)
                },
                Err(e) => length == 0 && e == ConfigurationError::ZeroLength,
            },
    {
        if length == 0 {
            return Err(ConfigurationError::ZeroLength);
        }
        let ghost ratei = self.sample_rate as int;
        let ghost li = length as int;
        proof {
            lemma_period_len_bounds(ratei, li);
        }
        let cycles: u128 = ((1_000_000u128 + (length as u128)) - 1) / (length as u128);
        proof {
            assert(cycles as int == whole_cycles_ceil(li));
            assert(cycles <= 1_000_000);
            assert((length as u128) * (self.sample_rate as u128) * cycles
                < 0x8000_0000_0000_0000_0000_0000_0000_0000u128) by (nonlinear_arith)
                requires
                    length <= 0xFFFF_FFFF_FFFF_FFFFu64,
                    self.sample_rate <= 0xFFFF_FFFFu32,
                    cycles <= 1_000_000,
            ;
        }
        let l_num: u128 = (length as u128) * (self.sample_rate as u128) * cycles;
        let period_wide: u128 = l_num / 1_000_000;
        proof {
            assert(period_wide as int == period_sample_count_len(ratei, li));
            vstd::arithmetic::mul::lemma_mul_is_commutative(li, ratei);
            assert(ratei * li + ratei <= u64::MAX as int);
        }
        let period: u64 = period_wide as u64;
        proof {
            assert(period >= 1);
        }
        let r_clk: u64 = self.clock % period;
        proof {
            assert((r_clk as u128) * 1_000_000 <= 0xFFFF_FFFF_FFFF_FFFFu128 * 1_000_000)
                by (nonlinear_arith)
                requires r_clk <= 0xFFFF_FFFF_FFFF_FFFFu64,
            ;
            assert((self.sample_rate as u128) * (length as u128) >= 1) by (nonlinear_arith)
                requires
                    self.sample_rate >= 1,
                    length >= 1,
            ;
            vstd::arithmetic::div_mod::lemma_mod_division_less_than_divisor(
                (r_clk as int) * 1_000_000,
                ratei * li,
            );
            assert(ratei * li <= u64::MAX as int);
        }
        let num_wide: u128 = ((r_clk as u128) * 1_000_000) % ((self.sample_rate as u128) * (
        length as u128));
        let den: u64 = (self.sample_rate as u64) * 1_000_000;
        Ok(Seconds { num: num_wide as u64, den })
    }

    /// A copy of this clock advanced by `n` samples; the original is untouched.
    pub fn plus_samples(&self, n: u64) -> (r: SampleTiming)
        requires
            self.clock + n <= u64::MAX,
        ensures
            r.sample_rate == self.sample_rate,
            r.clock == self.clock + n,
    {
        SampleTiming { sample_rate: self.sample_rate, clock: self.clock + n }
    }

    /// A copy of this clock receded by `n` samples; receding below tick zero
    /// is a clock underflow and is excluded.
    pub fn minus_samples(&self, n: u64) -> (r: SampleTiming)
        requires
            n <= self.clock,
        ensures
            r.sample_rate == self.sample_rate,
            r.clock == self.clock - n,
    {
        SampleTiming { sample_rate: self.sample_rate, clock: self.clock - n }
    }

    /// A copy advanced by another clock's tick count, keeping this rate.
    pub fn plus_timing(&self, other: &SampleTiming) -> (r: SampleTiming)
        requires
            self.clock + other.clock <= u64::MAX,
        ensures
            r.sample_rate == self.sample_rate,
            r.clock == self.clock + other.clock,
    {
        SampleTiming { sample_rate: self.sample_rate, clock: self.clock + other.clock }
    }

    /// A copy receded by another clock's tick count, keeping this rate.
    pub fn minus_timing(&self, other: &SampleTiming) -> (r: SampleTiming)
        requires
            other.clock <= self.clock,
        ensures
            r.sample_rate == self.sample_rate,
            r.clock == self.clock - other.clock,
    {
        SampleTiming { sample_rate: self.sample_rate, clock: self.clock - other.clock }
    }
}

/// The whole-cycle period is at least one sample and small enough that all
/// later arithmetic on it stays in range.
proof fn lemma_period_bounds(rate: int, frequency: int)
    requires
        rate >= 1,
        rate <= u32::MAX as int,
        frequency >= 1,
    ensures
        1 <= period_sample_count(rate, frequency),
        period_sample_count(rate, frequency) <= rate * 1_000_000,
{
    let w = whole_units_ceil(frequency);
    let num = w * rate * 1_000_000;
    vstd::arithmetic::div_mod::lemma_fundamental_div_mod(frequency + 999_999, 1_000_000);
    vstd::arithmetic::div_mod::lemma_mod_division_less_than_divisor(frequency + 999_999, 1_000_000);
    assert(w * 1_000_000 >= frequency);
    assert(w * 1_000_000 <= frequency + 999_999);
    assert(w >= 1);
    assert(num >= frequency) by (nonlinear_arith)
        requires
            num == w * rate * 1_000_000,
            w * 1_000_000 >= frequency,
            rate >= 1,
            w >= 1,
            frequency >= 1,
    ;
    vstd::arithmetic::div_mod::lemma_div_non_zero(num, frequency);
    assert(num <= rate * (frequency + 999_999)) by (nonlinear_arith)
        requires
            num == w * rate * 1_000_000,
            w * 1_000_000 <= frequency + 999_999,
            rate >= 1,
    ;
    vstd::arithmetic::div_mod::lemma_div_is_ordered(num, rate * (frequency + 999_999), frequency);
    assert(rate * (frequency + 999_999) == rate * 999_999 + rate * frequency) by (nonlinear_arith);
    vstd::arithmetic::div_mod::lemma_hoist_over_denominator(rate * 999_999, rate, frequency as nat);
    assert((rate * 999_999 + rate * frequency) / frequency == rate * 999_999 / frequency + rate);
    vstd::arithmetic::div_mod::lemma_div_nonincreasing(rate * 999_999, frequency);
    assert(rate * 999_999 >= 0) by (nonlinear_arith)
        requires rate >= 1,
    ;
    assert(rate * 999_999 + rate == rate * 1_000_000) by (nonlinear_arith);
    assert(period_sample_count(rate, frequency) <= rate * 1_000_000);
}

/// Drift-freedom of the phase query: whenever one cycle of `frequency` is a
/// whole number of ticks (that is, `frequency` divides `rate * 1_000_000`),
/// advancing the clock by exactly one cycle's worth of ticks leaves the phase
/// unchanged — however far the clock has already run.  Together with the
/// range clause of [`SampleTiming::sample_clock_with_frequency`] this pins the
/// phase to an exactly periodic value in `[0, 1/frequency)`.
pub proof fn lemma_phase_periodic(rate: int, clock: int, frequency: int)
    requires
        rate >= 1,
        frequency >= 1,
        clock >= 0,
        (rate * 1_000_000) % frequency == 0,
    ensures
        phase_numerator(rate, clock + rate * 1_000_000 / frequency, frequency) == phase_numerator(
            rate,
            clock,
            frequency,
        ),
{
    let m = rate * 1_000_000;
    let p = m / frequency;
    let w = whole_units_ceil(frequency);
    let l = period_sample_count(rate, frequency);
    vstd::arithmetic::div_mod::lemma_fundamental_div_mod(m, frequency);
    assert(m == frequency * p);
    // The period covers w whole cycles: l == w * p.
    assert(w * rate * 1_000_000 == frequency * (w * p)) by (nonlinear_arith)
        requires
            m == frequency * p,
            m == rate * 1_000_000,
    ;
    vstd::arithmetic::div_mod::lemma_div_multiples_vanish(w * p, frequency);
    assert(l == w * p);
    // One cycle is at least one tick, and at most the whole period.
    if frequency > m {
        vstd::arithmetic::div_mod::lemma_small_mod(m as nat, frequency as nat);
        assert(false);
    }
    vstd::arithmetic::div_mod::lemma_div_non_zero(m, frequency);
    assert(p >= 1);
    vstd::arithmetic::div_mod::lemma_fundamental_div_mod(frequency + 999_999, 1_000_000);
    vstd::arithmetic::div_mod::lemma_mod_division_less_than_divisor(frequency + 999_999, 1_000_000);
    assert(w >= 1);
    assert(l >= p && l >= 1) by (nonlinear_arith)
        requires
            l == w * p,
            w >= 1,
            p >= 1,
    ;
    // Reduce (clock + p) % l to (r + p) % l.
    let r = clock % l;
    let q = clock / l;
    vstd::arithmetic::div_mod::lemma_mod_division_less_than_divisor(clock, l);
    vstd::arithmetic::div_mod::lemma_fundamental_div_mod(clock, l);
    vstd::arithmetic::div_mod::lemma_mod_multiples_vanish(q, r + p, l);
    assert(clock + p == l * q + (r + p));
    assert((clock + p) % l == (r + p) % l);
    if r + p < l {
        vstd::arithmetic::div_mod::lemma_small_mod((r + p) as nat, l as nat);
        assert((clock + p) % l == r + p);
        assert((r + p) * frequency == m * 1 + r * frequency) by (nonlinear_arith)
            requires
                m == frequency * p,
        ;
        vstd::arithmetic::div_mod::lemma_mod_multiples_vanish(1, r * frequency, m);
        assert(((r + p) * frequency) % m == (r * frequency) % m);
    } else {
        vstd::arithmetic::div_mod::lemma_mod_multiples_vanish(-1, r + p, l);
        assert(l * -1 + (r + p) == r + p - l);
        assert((r + p - l) % l == (r + p) % l);
        vstd::arithmetic::div_mod::lemma_small_mod((r + p - l) as nat, l as nat);
        assert((clock + p) % l == r + p - l);
        assert((r + p - l) * frequency == m * (1 - w) + r * frequency) by (nonlinear_arith)
            requires
                m == frequency * p,
                l == w * p,
        ;
        vstd::arithmetic::div_mod::lemma_mod_multiples_vanish(1 - w, r * frequency, m);
        assert(((r + p - l) * frequency) % m == (r * frequency) % m);
    }
}

/// The whole-window period is at least one sample and bounded by
/// `rate * length + rate`.
proof fn lemma_period_len_bounds(rate: int, length: int)
    requires
        rate >= 1,
        rate <= u32::MAX as int,
        length >= 1,
    ensures
        1 <= period_sample_count_len(rate, length),
        period_sample_count_len(rate, length) <= rate * length + rate,
        whole_cycles_ceil(length) >= 1,
        whole_cycles_ceil(length) <= 1_000_000,
{
    let w = whole_cycles_ceil(length);
    let num = length * rate * w;
    vstd::arithmetic::div_mod::lemma_fundamental_div_mod(1_000_000 + length - 1, length);
    vstd::arithmetic::div_mod::lemma_mod_division_less_than_divisor(1_000_000 + length - 1, length);
    assert(length * w >= 1_000_000);
    assert(length * w <= 1_000_000 + length - 1);
    assert(w >= 1) by (nonlinear_arith)
        requires
            length * w >= 1_000_000,
            length >= 1,
    ;
    assert(w <= 1_000_000) by (nonlinear_arith)
        requires
            length * w <= 1_000_000 + length - 1,
            length >= 1,
            w >= 1,
    ;
    assert(num >= 1_000_000) by (nonlinear_arith)
        requires
            num == length * rate * w,
            length * w >= 1_000_000,
            rate >= 1,
    ;
    vstd::arithmetic::div_mod::lemma_div_non_zero(num, 1_000_000);
    assert(num <= rate * 999_999 + rate * length) by (nonlinear_arith)
        requires
            num == length * rate * w,
            length * w <= 1_000_000 + length - 1,
            rate >= 1,
    ;
    vstd::arithmetic::div_mod::lemma_div_is_ordered(num, rate * 999_999 + rate * length, 1_000_000);
    vstd::arithmetic::div_mod::lemma_hoist_over_denominator(
        rate * 999_999 + rate * length - 1_000_000 * rate,
        rate,
        1_000_000nat,
    );
    assert(rate * 999_999 + rate * length - 1_000_000 * rate == rate * length - rate)
        by (nonlinear_arith);
    assert((rate * 999_999 + rate * length) / 1_000_000 == (rate * length - rate) / 1_000_000
        + rate);
    assert(rate * length - rate >= 0) by (nonlinear_arith)
        requires
            rate >= 1,
            length >= 1,
    ;
    vstd::arithmetic::div_mod::lemma_div_nonincreasing(rate * length - rate, 1_000_000);
    assert(period_sample_count_len(rate, length) <= rate * length + rate);
}

} // verus!

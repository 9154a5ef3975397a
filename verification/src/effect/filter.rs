//! The block low-pass filter's verified core.
//!
//! The filter keeps a single-channel ring of input samples.  Once `length`
//! samples are buffered, each tick hands out one whole block for a forward
//! frequency transform, every bin is scaled by a cutoff-derived real gain
//! (`1 − min(bin_frequency/cutoff, 1)`), and the first sample of the
//! inverse transform, scaled by `1/length`, is that tick's output; the
//! oldest buffered sample leaves.  This yields one output sample per full
//! block, not seamless resynthesis.
//!
//! The transforms themselves are floating-point work that the caller
//! driving the filter performs between [`LowPassFilter::begin_block`] and
//! [`scale_block_output`]; the ring discipline, the gain table and the
//! bin scaling are verified here and pinned exactly.

use vstd::prelude::*;
use std::collections::VecDeque;
use crate::fixed::{div_trunc, div_trunc_exec, fp_mul, fp_mul_spec};
use crate::poly_sample::PolySample;
use crate::ConfigurationError;

verus! {

/// The verified state of the block low-pass filter.
#[derive(Debug)]
pub struct LowPassFilter {
    /// Cutoff frequency in millionths of one hertz; positive.
    pub cutoff: u64,
    /// Block length in samples; positive, at most one million.
    pub length: usize,
    /// The ring of buffered input samples, oldest first.
    pub buffer: VecDeque<i64>,
}

/// The gain applied to bin `i` of a `length`-point block at `rate`:
/// `1 − min(bin_frequency / cutoff, 1)` in fixed point, with
/// `bin_frequency = i · rate / length` and a single rounded-down division.
pub open spec fn lowpass_gain_spec(rate: int, length: int, cutoff: int, i: int) -> int {
    let ratio = i * rate * 1_000_000_000_000 / (length * cutoff);
    if ratio >= 1_000_000 {
        0
    } else {
        1_000_000 - ratio
    }
}

/// The table of bin gains for one block, each pinned to
/// [`lowpass_gain_spec`] and in `[0, 1_000_000]`.
pub fn lowpass_gains(sample_rate: u32, length: usize, cutoff: u64) -> (r: Vec<i64>)
    requires
        sample_rate >= 1,
        1 <= length <= 1_000_000,
        cutoff >= 1,
    ensures
        r@.len() == length,
        forall|i: int|
            0 <= i < length ==> r@[i] == lowpass_gain_spec(
                sample_rate as int,
                length as int,
                cutoff as int,
                i,
            ) as i64,
        forall|i: int| 0 <= i < length ==> 0 <= #[trigger] r@[i] <= 1_000_000,
{
    let mut r: Vec<i64> = Vec::new();
    let mut i: usize = 0;
    while i < length
        invariant
            i <= length,
            length <= 1_000_000,
            sample_rate >= 1,
            cutoff >= 1,
            r@.len() == i,
            forall|j: int|
                0 <= j < i ==> r@[j] == lowpass_gain_spec(
                    sample_rate as int,
                    length as int,
                    cutoff as int,
                    j,
                ) as i64,
            forall|j: int| 0 <= j < i ==> 0 <= #[trigger] r@[j] <= 1_000_000,
        decreases length - i,
    {
        proof {
            assert((i as int) * (sample_rate as int) * 1_000_000_000_000 <= 1_000_000
                * 0xFFFF_FFFF * 1_000_000_000_000) by (nonlinear_arith)
                requires
                    0 <= i <= 1_000_000,
                    1 <= sample_rate <= 0xFFFF_FFFFu32,
            ;
            assert((i as int) * (sample_rate as int) * 1_000_000_000_000 >= 0) by (nonlinear_arith)
                requires
                    i >= 0,
                    sample_rate >= 1,
            ;
            assert((length as int) * (cutoff as int) >= 1) by (nonlinear_arith)
                requires
                    length >= 1,
                    cutoff >= 1,
            ;
            assert((length as u128) * (cutoff as u128) <= 1_000_000u128 * 0xFFFF_FFFF_FFFF_FFFFu128)
                by (nonlinear_arith)
                requires
                    length <= 1_000_000,
                    cutoff <= 0xFFFF_FFFF_FFFF_FFFFu64,
            ;
            vstd::arithmetic::div_mod::lemma_div_pos_is_pos(
                (i as int) * (sample_rate as int) * 1_000_000_000_000,
                (length as int) * (cutoff as int),
            );
        }
        let num: u128 = (i as u128) * (sample_rate as u128) * 1_000_000_000_000;
        let den: u128 = (length as u128) * (cutoff as u128);
        let ratio: u128 = num / den;
        let g: i64 = if ratio >= 1_000_000 {
            0
        } else {
            1_000_000 - (ratio as i64)
        };
        r.push(g);
        i += 1;
    }
    r
}

/// Every bin of `bins` scaled by the matching gain, exactly as the
/// fixed-point product on both the real and the imaginary part.
pub fn apply_gains(bins: &Vec<(i64, i64)>, gains: &Vec<i64>) -> (r: Vec<(i64, i64)>)
    requires
        bins@.len() == gains@.len(),
    ensures
        r@.len() == bins@.len(),
        forall|i: int|
            0 <= i < bins@.len() ==> #[trigger] r@[i] == (
                fp_mul_spec(bins@[i].0 as int, gains@[i] as int) as i64,
                fp_mul_spec(bins@[i].1 as int, gains@[i] as int) as i64,
            ),
{
    let mut r: Vec<(i64, i64)> = Vec::new();
    let mut i: usize = 0;
    while i < bins.len()
        invariant
            i <= bins@.len(),
            bins@.len() == gains@.len(),
            r@.len() == i,
            forall|j: int|
                0 <= j < i ==> #[trigger] r@[j] == (
                    fp_mul_spec(bins@[j].0 as int, gains@[j] as int) as i64,
                    fp_mul_spec(bins@[j].1 as int, gains@[j] as int) as i64,
                ),
        decreases bins@.len() - i,
    {
        let re = fp_mul(bins[i].0, gains[i]);
        let im = fp_mul(bins[i].1, gains[i]);
        r.push((re, im));
        i += 1;
    }
    r
}

/// The first sample of an unnormalised inverse transform, scaled by
/// `1/length` (rounding toward zero): the filter's output for one block.
pub fn scale_block_output(first_re: i64, length: usize) -> (r: i64)
    requires
        length >= 1,
    ensures
        r as int == div_trunc(first_re as int, length as int),
{
    let q = div_trunc_exec(first_re as i128, length as i128);
    proof {
        assert(q <= first_re || q <= -first_re);
        assert(-q <= first_re || -q <= -first_re);
    }
    q as i64
}

impl LowPassFilter {
    /// A filter with an empty ring; a zero cutoff and a zero block length
    /// are rejected.  So is a block length above one million samples: a
    /// machine limit that keeps the gain table's wide integer intermediates
    /// in range, far beyond any audio-rate block.
    pub fn new(cutoff: u64, length: usize) -> (r: Result<LowPassFilter, ConfigurationError>)
        ensures
            match r {
                Ok(f) => {
                    &&& cutoff >= 1
                    &&& 1 <= length <= 1_000_000
                    &&& f.cutoff == cutoff
                    &&& f.length == length
                    &&& f.buffer@.len() == 0
                },
                Err(e) => {
                    &&& (cutoff == 0 || length == 0 || length > 1_000_000)
                    &&& e == if cutoff == 0 {
                        ConfigurationError::ZeroFrequency
                    } else {
                        ConfigurationError::ZeroLength
                    }
                },
            },
    {
        if cutoff == 0 {
            Err(ConfigurationError::ZeroFrequency)
        } else if length == 0 || length > 1_000_000 {
            Err(ConfigurationError::ZeroLength)
        } else {
            Ok(LowPassFilter { cutoff, length, buffer: VecDeque::new() })
        }
    }

    /// Record this tick's input sample (the first channel of the frame).
    /// With a full (or, after a shrink, over-full) ring, the block to
    /// transform is handed back — exactly the oldest `length` buffered
    /// samples — and the ring drains down to the configured length;
    /// otherwise the ring just grows and there is no output this tick.
    pub fn begin_block(&mut self, poly_sample: &PolySample) -> (r: Option<Vec<i64>>)
        requires
            poly_sample@.len() >= 1,
            old(self).length >= 1,
        ensures
            final(self).cutoff == old(self).cutoff,
            final(self).length == old(self).length,
            if old(self).buffer@.len() >= old(self).length {
                match r {
                    Option::Some(block) => {
                        &&& block@ == old(self).buffer@.subrange(0, old(self).length as int)
                        &&& final(self).buffer@ == old(self).buffer@.skip(
                            old(self).buffer@.len() - old(self).length + 1,
                        ).push(poly_sample@[0])
                    },
                    Option::None => false,
                }
            } else {
                r is None && final(self).buffer@ == old(self).buffer@.push(poly_sample@[0])
            },
    {
        let sample = poly_sample.channel(0);
        if self.buffer.len() >= self.length {
            let mut block: Vec<i64> = Vec::new();
            let mut k: usize = 0;
            let len = self.length;
            while k < len
                invariant
                    k <= len,
                    len <= self.buffer@.len(),
                    self.buffer@.len() <= usize::MAX,
                    block@.len() == k,
                    forall|j: int| 0 <= j < k ==> #[trigger] block@[j] == self.buffer@[j],
                decreases len - k,
            {
                let s = self.buffer[k];
                block.push(s);
                k += 1;
            }
            let ghost orig = old(self).buffer@;
            proof {
                assert(block@ =~= self.buffer@.subrange(0, len as int));
            }
            let dropped = self.buffer.pop_front();
            proof {
                assert(dropped is Some);
                assert(self.buffer@ =~= orig.skip(orig.len() - self.buffer@.len()));
            }
            while self.buffer.len() >= self.length
                invariant
                    self.length >= 1,
                    self.length - 1 <= self.buffer@.len() <= orig.len(),
                    self.buffer@ == orig.skip(orig.len() - self.buffer@.len()),
                    self.length == old(self).length,
                    self.cutoff == old(self).cutoff,
                decreases self.buffer@.len(),
            {
                let ghost before = self.buffer@;
                let surplus = self.buffer.pop_front();
                proof {
                    assert(surplus is Some);
                    assert(self.buffer@ =~= before.drop_first());
                    assert(before.drop_first() =~= orig.skip(orig.len() - self.buffer@.len()));
                }
            }
            self.buffer.push_back(sample);
            proof {
                assert(final(self).buffer@ =~= orig.skip(orig.len() - old(self).length + 1).push(
                    poly_sample@[0],
                ));
            }
            Some(block)
        } else {
            self.buffer.push_back(sample);
            None
        }
    }
}

} // verus!

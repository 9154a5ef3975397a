//! The multi-channel audio frame and its algebra.
//!
//! A [`PolySample`] is one instant's ordered sequence of per-channel
//! amplitudes.  A zero-channel frame is the distinguished "no output" marker,
//! which is different from a frame of zero-valued samples.  Addition
//! zero-pads the shorter operand to the longer; `apply` multiplies against a
//! cyclically repeated operand; `polify` concatenates copies of the channel
//! sequence; `linear_map` remaps every sample between intervals, exactly at
//! the interval boundaries.

use vstd::prelude::*;
use crate::fixed::{fp_mul, fp_mul_spec, sat_add, sat_add_spec, sat64, div_trunc_signed,
    div_trunc_exec};

verus! {

/// One tick's multi-channel amplitude vector, in fixed-point millionths.
#[derive(Debug, Clone, PartialEq)]
pub struct PolySample {
    /// Per-channel amplitudes; may be empty ("no output").
    pub samples: Vec<i64>,
}

impl View for PolySample {
    type V = Seq<i64>;

    open spec fn view(&self) -> Seq<i64> {
        self.samples@
    }
}

/// Channel `i` of a frame, reading zero beyond its length.
pub open spec fn channel_or_zero(s: Seq<i64>, i: int) -> int {
    if 0 <= i < s.len() {
        s[i] as int
    } else {
        0
    }
}

/// Channel-wise saturating sum, the shorter operand zero-padded to the longer.
pub open spec fn pad_add_spec(a: Seq<i64>, b: Seq<i64>) -> Seq<i64> {
    Seq::new(
        if a.len() >= b.len() {
            a.len()
        } else {
            b.len()
        },
        |i: int| sat_add_spec(channel_or_zero(a, i), channel_or_zero(b, i)) as i64,
    )
}

/// Every channel multiplied by the fixed-point scalar `k`.
pub open spec fn scale_spec(a: Seq<i64>, k: int) -> Seq<i64> {
    Seq::new(a.len(), |i: int| fp_mul_spec(a[i] as int, k) as i64)
}

/// Channel-wise product against `b` repeated cyclically to `a`'s length; an
/// empty `b` leaves `a` unchanged.
pub open spec fn apply_spec(a: Seq<i64>, b: Seq<i64>) -> Seq<i64> {
    if b.len() == 0 {
        a
    } else {
        Seq::new(a.len(), |i: int| fp_mul_spec(a[i] as int, b[i % (b.len() as int)] as int) as i64)
    }
}

/// `n` copies of the channel sequence, concatenated.
pub open spec fn polify_spec(a: Seq<i64>, n: int) -> Seq<i64>
    decreases n,
{
    if n <= 1 {
        a
    } else {
        polify_spec(a, n - 1) + a
    }
}

/// Affine remap of one sample from the interval `[f0, f1]` onto `[t0, t1]`,
/// rounding toward zero and saturating: exact at both interval boundaries.
pub open spec fn linear_map_sample_spec(x: int, f0: int, f1: int, t0: int, t1: int) -> int {
    sat64(div_trunc_signed((x - f0) * (t1 - t0), f1 - f0) + t0)
}

/// Affine remap of every channel.
pub open spec fn linear_map_spec(a: Seq<i64>, f0: int, f1: int, t0: int, t1: int) -> Seq<i64> {
    Seq::new(a.len(), |i: int| linear_map_sample_spec(a[i] as int, f0, f1, t0, t1) as i64)
}

/// Bound under which the affine remap's intermediates cannot overflow.
pub open spec fn in_map_range(x: int) -> bool {
    -0x4000_0000_0000_0000 <= x <= 0x4000_0000_0000_0000
}

impl PolySample {
    /// The zero-channel "no output" frame.
    pub fn empty() -> (r: PolySample)
        ensures
            r@.len() == 0,
    {
        PolySample { samples: Vec::new() }
    }

    /// A frame owning the given channel amplitudes.
    pub fn from_samples(samples: Vec<i64>) -> (r: PolySample)
        ensures
            r@ == samples@,
    {
        PolySample { samples }
    }

    /// A one-channel frame.
    pub fn mono(x: i64) -> (r: PolySample)
        ensures
            r@ == seq![x],
    {
        let mut samples: Vec<i64> = Vec::new();
        samples.push(x);
        proof {
            assert(samples@ =~= seq![x]);
        }
        PolySample { samples }
    }

    /// Number of channels.
    pub fn len(&self) -> (r: usize)
        ensures
            r == self@.len(),
    {
        self.samples.len()
    }

    /// Whether this is the zero-channel "no output" frame.
    pub fn is_empty(&self) -> (r: bool)
        ensures
            r == (self@.len() == 0),
    {
        self.samples.len() == 0
    }

    /// The amplitude of channel `i`.
    pub fn channel(&self, i: usize) -> (r: i64)
        requires
            i < self@.len(),
        ensures
            r == self@[i as int],
    {
        self.samples[i]
    }

    /// An independent copy of this frame.
    pub fn duplicate(&self) -> (r: PolySample)
        ensures
            r@ == self@,
    {
        let mut samples: Vec<i64> = Vec::new();
        let mut i: usize = 0;
        while i < self.samples.len()
            invariant
                i <= self@.len(),
                samples@ == self@.subrange(0, i as int),
            decreases self@.len() - i,
        {
            samples.push(self.samples[i]);
            proof {
                assert(samples@ =~= self@.subrange(0, i + 1));
            }
            i += 1;
        }
        proof {
            assert(samples@ =~= self@);
        }
        PolySample { samples }
    }

    /// Channel-wise saturating addition, the shorter operand zero-padded to
    /// the longer.
    pub fn add(&mut self, other: &PolySample)
        ensures
            final(self)@ == pad_add_spec(old(self)@, other@),
    {
        let ghost orig = self@;
        let mut i: usize = 0;
        while i < other.samples.len()
            invariant
                i <= other@.len(),
                orig == old(self)@,
                self@.len() == if orig.len() >= i as int { orig.len() } else { i as nat },
                forall|j: int|
                    0 <= j < i ==> self@[j] == sat_add_spec(
                        channel_or_zero(orig, j),
                        channel_or_zero(other@, j),
                    ) as i64,
                forall|j: int| i <= j < orig.len() ==> self@[j] == orig[j],
            decreases other@.len() - i,
        {
            if i < self.samples.len() {
                let v = sat_add(self.samples[i], other.samples[i]);
                self.samples[i] = v;
            } else {
                let v = other.samples[i];
                proof {
                    assert(sat_add_spec(channel_or_zero(orig, i as int), v as int) == v as int);
                }
                self.samples.push(v);
            }
            i += 1;
        }
        proof {
            assert(final(self)@ =~= pad_add_spec(orig, other@));
        }
    }

    /// Multiply every channel by the fixed-point scalar `k`.
    pub fn scale(&mut self, k: i64)
        ensures
            final(self)@ == scale_spec(old(self)@, k as int),
    {
        let ghost orig = self@;
        let mut i: usize = 0;
        while i < self.samples.len()
            invariant
                i <= orig.len(),
                orig == old(self)@,
                self@.len() == orig.len(),
                forall|j: int| 0 <= j < i ==> self@[j] == fp_mul_spec(orig[j] as int, k as int) as i64,
                forall|j: int| i <= j < orig.len() ==> self@[j] == orig[j],
            decreases orig.len() - i,
        {
            let v = fp_mul(self.samples[i], k);
            self.samples[i] = v;
            i += 1;
        }
        proof {
            assert(final(self)@ =~= scale_spec(orig, k as int));
        }
    }

    /// Multiply channel-wise by `other`, repeating `other`'s channels
    /// cyclically to this frame's length.  A one-channel operand therefore
    /// scales every channel by the same factor; an empty operand is a no-op.
    pub fn apply(&mut self, other: &PolySample)
        ensures
            final(self)@ == apply_spec(old(self)@, other@),
    {
        let m = other.samples.len();
        if m == 0 {
            return ;
        }
        let ghost orig = self@;
        let mut i: usize = 0;
        while i < self.samples.len()
            invariant
                m == other@.len(),
                m >= 1,
                i <= orig.len(),
                orig == old(self)@,
                self@.len() == orig.len(),
                forall|j: int|
                    0 <= j < i ==> self@[j] == fp_mul_spec(
                        orig[j] as int,
                        other@[j % (m as int)] as int,
                    ) as i64,
                forall|j: int| i <= j < orig.len() ==> self@[j] == orig[j],
            decreases orig.len() - i,
        {
            proof {
                vstd::arithmetic::div_mod::lemma_mod_division_less_than_divisor(
                    i as int,
                    m as int,
                );
            }
            let v = fp_mul(self.samples[i], other.samples[i % m]);
            self.samples[i] = v;
            i += 1;
        }
        proof {
            assert(final(self)@ =~= apply_spec(orig, other@));
        }
    }

    /// Concatenate `n` copies of the channel sequence in place.
    pub fn polify(&mut self, n: usize)
        requires
            n >= 1,
            n * old(self)@.len() <= usize::MAX,
        ensures
            final(self)@ == polify_spec(old(self)@, n as int),
    {
        let ghost orig = self@;
        let base = self.duplicate();
        let mut k: usize = 1;
        while k < n
            invariant
                1 <= k <= n,
                base@ == orig,
                n * orig.len() <= usize::MAX,
                self@ == polify_spec(orig, k as int),
            decreases n - k,
        {
            proof {
                lemma_polify_len(orig, k as int);
                assert((k + 1) * orig.len() <= n * orig.len()) by (nonlinear_arith)
                    requires
                        k + 1 <= n,
                        orig.len() >= 0,
                ;
            }
            let mut extra = base.duplicate();
            self.samples.append(&mut extra.samples);
            k += 1;
        }
    }

    /// Remap every sample from the interval `[from_start, from_end]` onto
    /// `[to_start, to_end]`: affine, rounded toward zero, saturating, and
    /// exact at both interval boundaries.
    pub fn linear_map(&mut self, from_start: i64, from_end: i64, to_start: i64, to_end: i64)
        requires
            from_start != from_end,
            in_map_range(from_start as int),
            in_map_range(from_end as int),
            in_map_range(to_start as int),
            in_map_range(to_end as int),
            forall|j: int| 0 <= j < old(self)@.len() ==> in_map_range(old(self)@[j] as int),
        ensures
            final(self)@ == linear_map_spec(
                old(self)@,
                from_start as int,
                from_end as int,
                to_start as int,
                to_end as int,
            ),
    {
        let ghost orig = self@;
        let ghost f0 = from_start as int;
        let ghost f1 = from_end as int;
        let ghost t0 = to_start as int;
        let ghost t1 = to_end as int;
        let mut i: usize = 0;
        while i < self.samples.len()
            invariant
                i <= orig.len(),
                orig == old(self)@,
                self@.len() == orig.len(),
                from_start != from_end,
                in_map_range(f0),
                in_map_range(f1),
                in_map_range(t0),
                in_map_range(t1),
                f0 == from_start as int,
                f1 == from_end as int,
                t0 == to_start as int,
                t1 == to_end as int,
                forall|j: int| 0 <= j < orig.len() ==> in_map_range(orig[j] as int),
                forall|j: int|
                    0 <= j < i ==> self@[j] == linear_map_sample_spec(orig[j] as int, f0, f1, t0, t1)
                        as i64,
                forall|j: int| i <= j < orig.len() ==> self@[j] == orig[j],
            decreases orig.len() - i,
        {
            let x = self.samples[i];
            proof {
                assert(self@[i as int] == orig[i as int]);
                assert(in_map_range(x as int));
                assert((x as int - f0) * (t1 - t0) <= 0x4000_0000_0000_0000_0000_0000_0000_0000
                    && (x as int - f0) * (t1 - t0) >= -0x4000_0000_0000_0000_0000_0000_0000_0000)
                    by (nonlinear_arith)
                    requires
                        in_map_range(x as int),
                        in_map_range(f0),
                        in_map_range(t0),
                        in_map_range(t1),
                ;
            }
            let num: i128 = ((x as i128) - (from_start as i128)) * ((to_end as i128) - (
            to_start as i128));
            let den: i128 = (from_end as i128) - (from_start as i128);
            let q: i128 = if den >= 1 {
                div_trunc_exec(num, den)
            } else {
                div_trunc_exec(-num, -den)
            };
            proof {
                assert(q == div_trunc_signed(num as int, den as int));
                assert(q <= num || q <= -num);
                assert(q >= num || q >= -num);
            }
            let shifted: i128 = q + (to_start as i128);
            let v: i64 = if shifted > (i64::MAX as i128) {
                i64::MAX
            } else if shifted < (i64::MIN as i128) {
                i64::MIN
            } else {
                shifted as i64
            };
            self.samples[i] = v;
            i += 1;
        }
        proof {
            assert(final(self)@ =~= linear_map_spec(orig, f0, f1, t0, t1));
        }
    }
}

/// Channel-wise padded addition is commutative: the order in which two frames
/// are summed never changes the numeric result.
pub proof fn lemma_pad_add_commutes(a: Seq<i64>, b: Seq<i64>)
    ensures
        pad_add_spec(a, b) == pad_add_spec(b, a),
{
    assert(pad_add_spec(a, b) =~= pad_add_spec(b, a));
}

/// Cyclic `apply` with a one-channel operand multiplies every channel of the
/// base frame by that same scalar.
pub proof fn lemma_apply_cyclic_mono(a: Seq<i64>, b: Seq<i64>)
    requires
        b.len() == 1,
    ensures
        apply_spec(a, b).len() == a.len(),
        forall|i: int|
            0 <= i < a.len() ==> apply_spec(a, b)[i] == fp_mul_spec(a[i] as int, b[0] as int) as i64,
{
    assert forall|i: int| 0 <= i < a.len() implies apply_spec(a, b)[i] == fp_mul_spec(
        a[i] as int,
        b[0] as int,
    ) as i64 by {
        vstd::arithmetic::div_mod::lemma_mod_division_less_than_divisor(i, 1);
    }
}

/// `n` concatenated copies have `n` times the channels, and channel `i` of
/// the result is channel `i % len` of the original.
pub proof fn lemma_polify_len(a: Seq<i64>, n: int)
    requires
        n >= 1,
    ensures
        polify_spec(a, n).len() == n * a.len(),
    decreases n,
{
    if n == 1 {
    } else {
        lemma_polify_len(a, n - 1);
        assert((n - 1) * a.len() + a.len() == n * a.len()) by (nonlinear_arith);
    }
}

/// Channel `i` of `n` concatenated copies is channel `i % a.len()` of `a`.
pub proof fn lemma_polify_channels(a: Seq<i64>, n: int, i: int)
    requires
        n >= 1,
        a.len() >= 1,
        0 <= i < n * a.len(),
    ensures
        polify_spec(a, n)[i] == a[i % (a.len() as int)],
    decreases n,
{
    lemma_polify_len(a, n);
    let m = a.len() as int;
    if n == 1 {
        vstd::arithmetic::div_mod::lemma_small_mod(i as nat, m as nat);
    } else {
        lemma_polify_len(a, n - 1);
        if i < (n - 1) * m {
            lemma_polify_channels(a, n - 1, i);
        } else {
            assert(polify_spec(a, n)[i] == a[i - (n - 1) * m]);
            assert(i == m * (n - 1) + (i - (n - 1) * m)) by (nonlinear_arith);
            vstd::arithmetic::div_mod::lemma_mod_multiples_vanish(n - 1, i - (n - 1) * m, m);
            vstd::arithmetic::div_mod::lemma_small_mod((i - (n - 1) * m) as nat, m as nat);
        }
    }
}

} // verus!

//! The probabilistic loop-glitch ("lag") effect.
//!
//! The effect keeps a rolling window of its own recent output frames.
//! While idle, each tick it starts — with probability `start_chance` —
//! looping a freshly captured slice of the window whose length is the
//! configured buffer length biased by a uniform draw; while looping, each
//! tick it stops with probability `stop_chance` and otherwise plays the
//! next captured frame, wrapping around.  The decisions consume uniform
//! draws in `[0, 1)`; the contract of one tick is exact once the draws are
//! given, and the public step function takes them as arguments.

use vstd::prelude::*;
use std::collections::VecDeque;
use crate::effect::{frames_deep, Effect};
use crate::poly_sample::PolySample;
use crate::sample_timing::SampleTiming;

verus! {

/// Spec-level snapshot of the effect's state: the rolling window of recent
/// output frames, and — while looping — the captured slice together with
/// the playback position within it.
pub struct LagModel {
    /// Recent output frames, oldest first.
    pub window: Seq<Seq<i64>>,
    /// The playback position and captured slice, while looping.
    pub playback: Option<(int, Seq<Seq<i64>>)>,
}

/// One tick of the effect, given this tick's uniform draws `d1` (the
/// start/stop decision) and `d2` (the capture-length bias), both in
/// `[0, 1_000_000)`.  Returns the state after the tick and the output frame.
pub open spec fn lag_step(
    pre: LagModel,
    input: Seq<i64>,
    rate: int,
    start_chance: int,
    stop_chance: int,
    buffer_length: int,
    bias: int,
    d1: int,
    d2: int,
) -> (LagModel, Seq<i64>) {
    let (playback, out) = match pre.playback {
        Option::Some((idx, buf)) => {
            let out = buf[idx];
            if d1 < stop_chance {
                (Option::<(int, Seq<Seq<i64>>)>::None, out)
            } else {
                (
                    Option::Some(
                        (
                            if idx + 1 == buf.len() {
                                0int
                            } else {
                                idx + 1
                            },
                            buf,
                        ),
                    ),
                    out,
                )
            }
        },
        Option::None => {
            if d1 < start_chance {
                let span = buffer_length - bias + 2 * d2 * bias / 1_000_000;
                let size = span * rate / 1_000_000;
                if pre.window.len() >= size && size >= 1 {
                    (
                        Option::Some(
                            (0int, pre.window.subrange(pre.window.len() - size, pre.window.len() as int)),
                        ),
                        input,
                    )
                } else {
                    (Option::<(int, Seq<Seq<i64>>)>::None, input)
                }
            } else {
                (Option::<(int, Seq<Seq<i64>>)>::None, input)
            }
        },
    };
    let wsize = (buffer_length + bias) * rate / 1_000_000;
    let keep = if wsize >= 1 {
        wsize - 1
    } else {
        0
    };
    let rolled = if pre.window.len() > keep {
        pre.window.skip(pre.window.len() - keep)
    } else {
        pre.window
    };
    (LagModel { window: rolled.push(out), playback }, out)
}

/// The loop-glitch effect; its state is observable through [`Lag::model`].
#[derive(Debug)]
pub struct Lag {
    start_chance: u64,
    stop_chance: u64,
    buffer_length: u64,
    buffer_length_rand_bias: u64,
    active: Option<(usize, Vec<PolySample>)>,
    buffer: VecDeque<PolySample>,
}

/// Relies on `rand::random_range`: a draw from the thread-local generator,
/// uniform over `0..1_000_000`.  Only the range is assumed; two calls may
/// return different values.
#[verifier::external_body]
fn random_fraction() -> (r: u64)
    ensures
        r < 1_000_000,
{
    rand::random_range(0u64..1_000_000u64)
}

impl Lag {
    /// The probability of starting a loop per idle tick, in millionths.
    pub closed spec fn start_chance_spec(&self) -> u64 {
        self.start_chance
    }

    /// The probability of stopping the loop per looping tick, in millionths.
    pub closed spec fn stop_chance_spec(&self) -> u64 {
        self.stop_chance
    }

    /// The nominal capture length, in millionths of a second.
    pub closed spec fn buffer_length_spec(&self) -> u64 {
        self.buffer_length
    }

    /// The uniform bias applied to the capture length, in millionths of a
    /// second.
    pub closed spec fn bias_spec(&self) -> u64 {
        self.buffer_length_rand_bias
    }

    /// The spec-level snapshot of the current state.
    pub closed spec fn model(&self) -> LagModel {
        LagModel {
            window: frames_deep(self.buffer@),
            playback: match self.active {
                Option::Some((idx, buf)) => Option::Some((idx as int, frames_deep(buf@))),
                Option::None => Option::None,
            },
        }
    }

    /// An idle effect with an empty window.  The chances are probabilities
    /// in millionths; the bias may not exceed the nominal capture length.
    pub fn new(
        start_chance: u64,
        stop_chance: u64,
        buffer_length: u64,
        buffer_length_rand_bias: u64,
    ) -> (r: Lag)
        requires
            start_chance <= 1_000_000,
            stop_chance <= 1_000_000,
            buffer_length_rand_bias <= buffer_length,
            buffer_length + buffer_length_rand_bias <= u64::MAX,
        ensures
            r.start_chance_spec() == start_chance,
            r.stop_chance_spec() == stop_chance,
            r.buffer_length_spec() == buffer_length,
            r.bias_spec() == buffer_length_rand_bias,
            r.model().window.len() == 0,
            r.model().playback is None,
            r.wf(),
    {
        let r = Lag {
            start_chance,
            stop_chance,
            buffer_length,
            buffer_length_rand_bias,
            active: None,
            buffer: VecDeque::new(),
        };
        proof {
            assert(r.model().window =~= Seq::<Seq<i64>>::empty());
        }
        r
    }

    /// One tick with the decision draw `d1` and the bias draw `d2` given
    /// explicitly: exactly [`lag_step`] on the model.
    pub fn step_with(
        &mut self,
        sample_timing: &SampleTiming,
        poly_sample: PolySample,
        d1: u64,
        d2: u64,
    ) -> (r: PolySample)
        requires
            old(self).wf(),
            old(self).ready(*sample_timing),
            d1 < 1_000_000,
            d2 < 1_000_000,
        ensures
            final(self).wf(),
            final(self).start_chance_spec() == old(self).start_chance_spec(),
            final(self).stop_chance_spec() == old(self).stop_chance_spec(),
            final(self).buffer_length_spec() == old(self).buffer_length_spec(),
            final(self).bias_spec() == old(self).bias_spec(),
            ({
                let sr = lag_step(
                    old(self).model(),
                    poly_sample@,
                    sample_timing.sample_rate as int,
                    old(self).start_chance_spec() as int,
                    old(self).stop_chance_spec() as int,
                    old(self).buffer_length_spec() as int,
                    old(self).bias_spec() as int,
                    d1 as int,
                    d2 as int,
                );
                final(self).model() == sr.0 && r@ == sr.1
            }),
    {
        let ghost pre = self.model();
        let ghost ratei = sample_timing.sample_rate as int;
        let mut output = poly_sample;
        let taken = self.active.take();
        match taken {
            Some((idx, buf)) => {
                proof {
                    assert(idx < buf@.len());
                }
                output = buf[idx].duplicate();
                if d1 < self.stop_chance {
                    // stop looping; passthrough resumes next tick
                } else {
                    let blen = buf.len();
                    let idx2: usize = if idx + 1 == blen {
                        0
                    } else {
                        idx + 1
                    };
                    self.active = Some((idx2, buf));
                }
            },
            None => {
                if d1 < self.start_chance {
                    proof {
                        lemma_lag_span_bounds(
                            self.buffer_length as int,
                            self.buffer_length_rand_bias as int,
                            d2 as int,
                            ratei,
                            usize::MAX as int,
                        );
                    }
                    let q: u128 = (2u128 * (d2 as u128) * (self.buffer_length_rand_bias as u128))
                        / 1_000_000;
                    let span: u64 = ((self.buffer_length as u128)
                        - (self.buffer_length_rand_bias as u128) + q) as u64;
                    let size = sample_timing.duration_to_sample_count(span);
                    let whole = self.buffer.len();
                    if whole >= size && size >= 1 {
                        let start = whole - size;
                        let mut captured: Vec<PolySample> = Vec::new();
                        let mut k: usize = 0;
                        while k < size
                            invariant
                                k <= size,
                                start + size == self.buffer@.len(),
                                self.buffer@.len() <= usize::MAX,
                                captured@.len() == k,
                                forall|j: int|
                                    0 <= j < k ==> #[trigger] captured@[j]@ == self.buffer@[
                                        start + j
                                    ]@,
                            decreases size - k,
                        {
                            proof {
                                assert(start + k < self.buffer@.len());
                            }
                            let p = self.buffer[start + k].duplicate();
                            captured.push(p);
                            k += 1;
                        }
                        proof {
                            assert(frames_deep(captured@) =~= pre.window.subrange(
                                pre.window.len() - size,
                                pre.window.len() as int,
                            ));
                        }
                        self.active = Some((0, captured));
                    }
                }
            },
        }
        let window_span = self.buffer_length + self.buffer_length_rand_bias;
        let wsize = sample_timing.duration_to_sample_count(window_span);
        let keep: usize = if wsize >= 1 {
            wsize - 1
        } else {
            0
        };
        let ghost pre_active = self.active;
        let ghost pre_roll = frames_deep(self.buffer@);
        while self.buffer.len() > keep
            invariant
                keep <= self.buffer@.len() <= pre_roll.len() || self.buffer@.len()
                    == pre_roll.len(),
                frames_deep(self.buffer@) == pre_roll.skip(
                    pre_roll.len() - self.buffer@.len(),
                ),
                self.start_chance == old(self).start_chance,
                self.stop_chance == old(self).stop_chance,
                self.buffer_length == old(self).buffer_length,
                self.buffer_length_rand_bias == old(self).buffer_length_rand_bias,
                self.active == pre_active,
            decreases self.buffer@.len(),
        {
            let ghost before = frames_deep(self.buffer@);
            let dropped = self.buffer.pop_front();
            proof {
                assert(dropped is Some);
                assert(frames_deep(self.buffer@) =~= before.drop_first());
                assert(before.drop_first() =~= pre_roll.skip(
                    pre_roll.len() - self.buffer@.len(),
                ));
            }
        }
        let ghost rolled = frames_deep(self.buffer@);
        let recorded = output.duplicate();
        let ghost oview = output@;
        self.buffer.push_back(recorded);
        proof {
            let sr = lag_step(
                pre,
                poly_sample@,
                ratei,
                old(self).start_chance_spec() as int,
                old(self).stop_chance_spec() as int,
                old(self).buffer_length_spec() as int,
                old(self).bias_spec() as int,
                d1 as int,
                d2 as int,
            );
            assert(frames_deep(self.buffer@) =~= rolled.push(oview));
            let wsize_s = (old(self).buffer_length_spec() as int + old(self).bias_spec() as int)
                * ratei / 1_000_000;
            let keep_s: int = if wsize_s >= 1 {
                wsize_s - 1
            } else {
                0
            };
            if pre.window.len() > keep_s {
                assert(rolled =~= pre.window.skip(pre.window.len() - keep_s));
            } else {
                assert(rolled =~= pre.window);
            }
            assert(self.model().window =~= sr.0.window);
            assert(self.model().playback == sr.0.playback);
            assert(oview == sr.1);
        }
        output
    }
}

/// The biased capture span never exceeds the rolling window's span, so its
/// sample count fits wherever the window's does.
proof fn lemma_lag_span_bounds(buffer_length: int, bias: int, d2: int, rate: int, cap: int)
    requires
        0 <= bias <= buffer_length,
        0 <= d2 < 1_000_000,
        rate >= 1,
        buffer_length + bias <= u64::MAX as int,
        (buffer_length + bias) * rate / 1_000_000 <= cap,
    ensures
        0 <= 2 * d2 * bias / 1_000_000 <= 2 * bias,
        buffer_length - bias + 2 * d2 * bias / 1_000_000 <= buffer_length + bias,
        (buffer_length - bias + 2 * d2 * bias / 1_000_000) * rate / 1_000_000 <= cap,
{
    let q = 2 * d2 * bias / 1_000_000;
    assert(2 * d2 * bias >= 0) by (nonlinear_arith)
        requires
            d2 >= 0,
            bias >= 0,
    ;
    vstd::arithmetic::div_mod::lemma_div_pos_is_pos(2 * d2 * bias, 1_000_000);
    assert(2 * d2 * bias <= 1_000_000 * (2 * bias)) by (nonlinear_arith)
        requires
            0 <= d2 < 1_000_000,
            bias >= 0,
    ;
    vstd::arithmetic::div_mod::lemma_multiply_divide_le(2 * d2 * bias, 1_000_000, 2 * bias);
    let span = buffer_length - bias + q;
    assert(span * rate <= (buffer_length + bias) * rate) by (nonlinear_arith)
        requires
            span <= buffer_length + bias,
            rate >= 1,
    ;
    vstd::arithmetic::div_mod::lemma_div_is_ordered(
        span * rate,
        (buffer_length + bias) * rate,
        1_000_000,
    );
}

impl Effect for Lag {
    open spec fn wf(&self) -> bool {
        &&& self.start_chance_spec() <= 1_000_000
        &&& self.stop_chance_spec() <= 1_000_000
        &&& self.bias_spec() <= self.buffer_length_spec()
        &&& self.buffer_length_spec() + self.bias_spec() <= u64::MAX
        &&& match self.model().playback {
            Option::Some((idx, buf)) => 0 <= idx < buf.len(),
            Option::None => true,
        }
    }

    open spec fn accepts(&self, input: Seq<i64>) -> bool {
        true
    }

    open spec fn ready(&self, timing: SampleTiming) -> bool {
        &&& timing.sample_rate >= 1
        &&& (self.buffer_length_spec() as int + self.bias_spec() as int) * (
        timing.sample_rate as int) / 1_000_000 <= usize::MAX as int
    }

    proof fn ready_monotone(&self, t1: SampleTiming, t2: SampleTiming) {
    }

    /// One tick of the effect: two fresh uniform draws decide this tick's
    /// start/stop and capture bias, and the tick is then exactly
    /// [`lag_step`] for those draws.
    fn process(&mut self, sample_timing: &SampleTiming, poly_sample: PolySample) -> (r: PolySample)
        ensures
            final(self).start_chance_spec() == old(self).start_chance_spec(),
            final(self).stop_chance_spec() == old(self).stop_chance_spec(),
            final(self).buffer_length_spec() == old(self).buffer_length_spec(),
            final(self).bias_spec() == old(self).bias_spec(),
            exists|d1: u64, d2: u64|
                d1 < 1_000_000 && d2 < 1_000_000 && ({
                    let sr = #[trigger] lag_step(
                        old(self).model(),
                        poly_sample@,
                        sample_timing.sample_rate as int,
                        old(self).start_chance_spec() as int,
                        old(self).stop_chance_spec() as int,
                        old(self).buffer_length_spec() as int,
                        old(self).bias_spec() as int,
                        d1 as int,
                        d2 as int,
                    );
                    final(self).model() == sr.0 && r@ == sr.1
                }),
    {
        let d1 = random_fraction();
        let d2 = random_fraction();
        self.step_with(sample_timing, poly_sample, d1, d2)
    }
}

} // verus!

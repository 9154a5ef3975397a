//! A delay/feedback (echo) effect.
//!
//! The effect keeps a first-in-first-out history of the *dry* input frames,
//! sized by converting the configured delay time to a whole sample count at
//! the current rate.  Once the history is full, each tick's output is the
//! input plus the oldest dry frame scaled by the feedback on read, and the
//! oldest frame leaves; the unmodified input is always recorded.  Until the
//! history is full the input passes through unchanged.  Shrinking the delay
//! at runtime takes effect as the history drains: a tick whose history is
//! over-full drops everything older than the new count.

use vstd::prelude::*;
use std::collections::VecDeque;
use crate::effect::{frames_deep, Effect};
use crate::fixed::fp_mul_spec;
use crate::poly_sample::{pad_add_spec, scale_spec, PolySample};
use crate::sample_timing::SampleTiming;

verus! {

/// The echo effect: a dry history drained `delay` behind the input.
#[derive(Debug)]
pub struct Delay {
    /// The delay time, in millionths of a second.
    pub delay: u64,
    /// How much of the echoed frame is mixed in, in millionths.
    pub feedback: i64,
    /// The dry history, oldest frame first.
    pub buffer: VecDeque<PolySample>,
}

impl View for Delay {
    type V = Seq<Seq<i64>>;

    /// The dry frames currently buffered, oldest first.
    open spec fn view(&self) -> Seq<Seq<i64>> {
        frames_deep(self.buffer@)
    }
}

/// One tick of the delay line: with a full (or, after a shrink, over-full)
/// history of `n` dry frames the output is the input plus the oldest frame
/// scaled by `fb`, and the history drains down to the configured count;
/// otherwise the input passes through and the history grows.  Returns the
/// history after the tick and the output frame.
pub open spec fn delay_step(buf: Seq<Seq<i64>>, input: Seq<i64>, n: int, fb: int) -> (
    Seq<Seq<i64>>,
    Seq<i64>,
) {
    if buf.len() >= n {
        (
            buf.skip(buf.len() - n + 1).push(input),
            pad_add_spec(input, scale_spec(buf.first(), fb)),
        )
    } else {
        (buf.push(input), input)
    }
}

/// The history a delay line holds after feeding it `inputs` one per tick
/// from an empty start, with a fixed sample count `n`.
pub open spec fn delay_trace(inputs: Seq<Seq<i64>>, n: int, fb: int) -> Seq<Seq<i64>>
    decreases inputs.len(),
{
    if inputs.len() == 0 {
        Seq::empty()
    } else {
        delay_step(delay_trace(inputs.drop_last(), n, fb), inputs.last(), n, fb).0
    }
}

/// The output the delay line produces on tick `i` of feeding it `inputs`
/// from an empty start.
pub open spec fn delay_output(inputs: Seq<Seq<i64>>, n: int, fb: int, i: int) -> Seq<i64>
    recommends
        0 <= i < inputs.len(),
{
    delay_step(delay_trace(inputs.subrange(0, i), n, fb), inputs[i], n, fb).1
}

impl Delay {
    /// An empty delay line: `delay` millionths of a second of history,
    /// echoed at `feedback` millionths.
    pub fn new(delay: u64, feedback: i64) -> (r: Delay)
        ensures
            r.delay == delay,
            r.feedback == feedback,
            r@.len() == 0,
    {
        let r = Delay { delay, feedback, buffer: VecDeque::new() };
        proof {
            assert(r@ =~= Seq::<Seq<i64>>::empty());
        }
        r
    }

    /// How many frames of history are currently buffered.
    pub fn buffered(&self) -> (r: usize)
        ensures
            r == self@.len(),
    {
        self.buffer.len()
    }
}

impl Effect for Delay {
    open spec fn wf(&self) -> bool {
        true
    }

    open spec fn accepts(&self, input: Seq<i64>) -> bool {
        true
    }

    open spec fn ready(&self, timing: SampleTiming) -> bool {
        &&& timing.sample_rate >= 1
        &&& (self.delay as int) * (timing.sample_rate as int) / 1_000_000 >= 1
        &&& (self.delay as int) * (timing.sample_rate as int) / 1_000_000 <= usize::MAX as int
    }

    proof fn ready_monotone(&self, t1: SampleTiming, t2: SampleTiming) {
    }

    /// One tick of the echo: exactly [`delay_step`] on the dry history, with
    /// the sample count taken from the current clock's rate.
    fn process(&mut self, sample_timing: &SampleTiming, poly_sample: PolySample) -> (r: PolySample)
        ensures
            final(self).delay == old(self).delay,
            final(self).feedback == old(self).feedback,
            ({
                let n = (old(self).delay as int) * (sample_timing.sample_rate as int) / 1_000_000;
                &&& final(self)@ == delay_step(old(self)@, poly_sample@, n, old(self).feedback as int).0
                &&& r@ == delay_step(old(self)@, poly_sample@, n, old(self).feedback as int).1
            }),
    {
        let n = sample_timing.duration_to_sample_count(self.delay);
        let ghost orig = old(self)@;
        if self.buffer.len() >= n {
            let oldest = match self.buffer.pop_front() {
                Some(p) => p,
                None => unreached(),
            };
            proof {
                assert(frames_deep(self.buffer@) =~= orig.skip(1));
                assert(orig.skip(orig.len() - self.buffer@.len()) =~= orig.skip(1));
            }
            while self.buffer.len() >= n
                invariant
                    n >= 1,
                    n - 1 <= self.buffer@.len() <= orig.len(),
                    frames_deep(self.buffer@) == orig.skip(orig.len() - self.buffer@.len()),
                    self.delay == old(self).delay,
                    self.feedback == old(self).feedback,
                decreases self.buffer@.len(),
            {
                let ghost before = frames_deep(self.buffer@);
                let dropped = self.buffer.pop_front();
                proof {
                    assert(dropped is Some);
                    assert(frames_deep(self.buffer@) =~= before.drop_first());
                    assert(before.drop_first() =~= orig.skip(orig.len() - self.buffer@.len()));
                }
            }
            let mut echoed = oldest;
            echoed.scale(self.feedback);
            let dry = poly_sample.duplicate();
            let ghost dview = dry@;
            let mut out = poly_sample;
            out.add(&echoed);
            self.buffer.push_back(dry);
            proof {
                assert(self@ =~= orig.skip(orig.len() - n + 1).push(dview));
                assert(orig.first() == old(self).buffer@[0]@);
                assert(out@ == pad_add_spec(
                    dview,
                    scale_spec(orig.first(), old(self).feedback as int),
                ));
            }
            out
        } else {
            let dry = poly_sample.duplicate();
            let ghost dview = dry@;
            self.buffer.push_back(dry);
            proof {
                assert(self@ =~= old(self)@.push(dview));
            }
            poly_sample
        }
    }
}

/// The delay line law: feeding `inputs` one per tick from an empty history,
/// the first `n` ticks pass their input through unchanged, and from tick `n`
/// on the output is the input plus the input from `n` ticks earlier scaled
/// by the feedback.  With a feedback of zero the effect is therefore the
/// identity on every tick.
pub proof fn lemma_delay_line(inputs: Seq<Seq<i64>>, n: int, fb: int, i: int)
    requires
        n >= 1,
        0 <= i < inputs.len(),
    ensures
        i < n ==> delay_output(inputs, n, fb, i) == inputs[i],
        i >= n ==> delay_output(inputs, n, fb, i) == pad_add_spec(
            inputs[i],
            scale_spec(inputs[i - n], fb),
        ),
{
    lemma_delay_trace_window(inputs.subrange(0, i), n, fb);
    let pre = delay_trace(inputs.subrange(0, i), n, fb);
    if i < n {
        assert(pre.len() == i);
    } else {
        assert(pre.len() == n);
        assert(pre.first() == inputs.subrange(0, i)[i - n]);
        assert(inputs.subrange(0, i)[i - n] == inputs[i - n]);
    }
}

/// With a feedback of zero, the echo term vanishes: every tick's output is
/// its own input unchanged, provided the echoed frame has no more channels
/// than the input it would be mixed into (zero-padding would otherwise
/// widen the frame with silent channels).
pub proof fn lemma_delay_feedback_zero(inputs: Seq<Seq<i64>>, n: int, i: int)
    requires
        n >= 1,
        0 <= i < inputs.len(),
        i >= n ==> inputs[i - n].len() <= inputs[i].len(),
    ensures
        delay_output(inputs, n, 0, i) == inputs[i],
{
    lemma_delay_line(inputs, n, 0, i);
    if i >= n {
        let echoed = scale_spec(inputs[i - n], 0);
        assert forall|j: int| 0 <= j < echoed.len() implies echoed[j] == 0i64 by {
            assert(fp_mul_spec(inputs[i - n][j] as int, 0) == 0) by {
                assert(inputs[i - n][j] as int * 0 == 0);
            }
        }
        assert(pad_add_spec(inputs[i], echoed) =~= inputs[i]);
    }
}

/// After feeding `inputs` from an empty start, the history holds exactly the
/// last `min(len, n)` inputs, in order.
pub proof fn lemma_delay_trace_window(inputs: Seq<Seq<i64>>, n: int, fb: int)
    requires
        n >= 1,
    ensures
        delay_trace(inputs, n, fb).len() == if inputs.len() <= n {
            inputs.len() as int
        } else {
            n
        },
        forall|j: int|
            0 <= j < delay_trace(inputs, n, fb).len() ==> delay_trace(inputs, n, fb)[j] == inputs[
                inputs.len() - delay_trace(inputs, n, fb).len() + j
            ],
    decreases inputs.len(),
{
    if inputs.len() == 0 {
    } else {
        lemma_delay_trace_window(inputs.drop_last(), n, fb);
        let prev = delay_trace(inputs.drop_last(), n, fb);
        let cur = delay_trace(inputs, n, fb);
        assert(cur == delay_step(prev, inputs.last(), n, fb).0);
    }
}

} // verus!

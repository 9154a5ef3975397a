//! Patch composition: the capability to produce one frame per tick, and the
//! summing aggregator.
//!
//! A [`MasterPatch`] owns its children exclusively and, each tick, sums
//! their frames channel-wise with zero-padding.  The early-stop contract:
//! the first child that returns the zero-channel frame ends the whole tick
//! with a zero-channel frame, and later children are not asked (and are
//! left untouched).
//!
//! Children are held as a homogeneous collection of one patch type: Verus
//! has no trait objects, so a mixed collection of boxed children is out of
//! reach; nesting aggregators of different child types recovers most of the
//! lost generality.

use vstd::prelude::*;
use crate::poly_sample::{channel_or_zero, pad_add_spec, PolySample};
use crate::sample_timing::SampleTiming;

verus! {

/// Lifecycle events that the aggregate reports to whoever drives it.
#[derive(Clone, Copy, Debug, PartialEq, Eq, Structural)]
pub enum CpalEvent {
    /// The composition is over: stop the stream and hand the patch back.
    Exit,
    /// Suspend producing frames.
    Pause,
    /// Resume producing frames.
    Resume,
}

/// Anything able to produce one frame from the current clock, tick by tick.
pub trait Patch: Sized {
    /// When the patch may be asked for a frame at `timing`.
    spec fn ready(&self, timing: SampleTiming) -> bool;

    /// What one tick is allowed to do: the relation between the patch's
    /// state before the tick, its state after it, and the frame it
    /// produced.  `next_sample` guarantees this relation, so a caller can
    /// tie its own output to whatever the patch actually returned.
    spec fn produced(&self, timing: SampleTiming, next: Self, out: Seq<i64>) -> bool;

    /// Readiness never expires as the clock advances at a fixed rate.
    proof fn ready_monotone(&self, t1: SampleTiming, t2: SampleTiming)
        requires
            self.ready(t1),
            t2.sample_rate == t1.sample_rate,
            t1.clock <= t2.clock,
        ensures
            self.ready(t2),
    ;

    /// Produce this tick's frame.
    fn next_sample(&mut self, sample_timing: &SampleTiming) -> (r: PolySample)
        requires
            old(self).ready(*sample_timing),
        ensures
            old(self).produced(*sample_timing, *final(self), r@),
            forall|t2: SampleTiming|
                t2.sample_rate == sample_timing.sample_rate && t2.clock >= sample_timing.clock
                    ==> #[trigger] final(self).ready(t2),
    ;
}

/// The channel-wise zero-padded sum of a sequence of frames, in order.
pub open spec fn padded_sum(outs: Seq<Seq<i64>>) -> Seq<i64>
    decreases outs.len(),
{
    if outs.len() == 0 {
        Seq::empty()
    } else {
        pad_add_spec(padded_sum(outs.drop_last()), outs.last())
    }
}

/// One aggregator tick over children `pre` (becoming `post`), producing
/// `result` from the children's own frames `outs`: either every child was
/// asked, none produced the zero-channel frame, and the result is their
/// padded sum; or the children up to the first zero-channel frame were
/// asked, the rest were left untouched, and the result is zero-channel.
pub open spec fn mixed_from<P: Patch>(
    pre: Seq<P>,
    post: Seq<P>,
    timing: SampleTiming,
    outs: Seq<Seq<i64>>,
    result: Seq<i64>,
) -> bool {
    &&& post.len() == pre.len()
    &&& {
        ||| {
            &&& outs.len() == pre.len()
            &&& (forall|i: int|
                0 <= i < pre.len() ==> #[trigger] pre[i].produced(timing, post[i], outs[i]))
            &&& (forall|i: int| 0 <= i < pre.len() ==> #[trigger] outs[i].len() > 0)
            &&& result == padded_sum(outs)
        }
        ||| {
            &&& 1 <= outs.len() <= pre.len()
            &&& (forall|i: int|
                0 <= i < outs.len() ==> #[trigger] pre[i].produced(timing, post[i], outs[i]))
            &&& (forall|i: int| 0 <= i < outs.len() - 1 ==> #[trigger] outs[i].len() > 0)
            &&& outs.last().len() == 0
            &&& (forall|i: int| outs.len() <= i < pre.len() ==> post[i] == pre[i])
            &&& result.len() == 0
        }
    }
}

/// The early-stop contract, as a law: if any asked child produced the
/// zero-channel frame, the whole tick's aggregate is the zero-channel frame.
pub proof fn lemma_early_stop<P: Patch>(
    pre: Seq<P>,
    post: Seq<P>,
    timing: SampleTiming,
    outs: Seq<Seq<i64>>,
    result: Seq<i64>,
)
    requires
        mixed_from(pre, post, timing, outs, result),
        exists|i: int| 0 <= i < outs.len() && #[trigger] outs[i].len() == 0,
    ensures
        result.len() == 0,
{
    let i = choose|i: int| 0 <= i < outs.len() && #[trigger] outs[i].len() == 0;
    if outs.len() == pre.len() && (forall|j: int|
        0 <= j < pre.len() ==> #[trigger] outs[j].len() > 0) {
        assert(outs[i].len() > 0);
    }
}

/// Padding with the zero-channel frame is the identity.
pub proof fn lemma_pad_add_empty(a: Seq<i64>)
    ensures
        pad_add_spec(Seq::<i64>::empty(), a) == a,
        pad_add_spec(a, Seq::<i64>::empty()) == a,
{
    assert(pad_add_spec(Seq::<i64>::empty(), a) =~= a);
    assert(pad_add_spec(a, Seq::<i64>::empty()) =~= a);
}

/// The padded sum of exactly two frames is their padded addition.
pub proof fn lemma_padded_sum_pair(a: Seq<i64>, b: Seq<i64>)
    ensures
        padded_sum(seq![a, b]) == pad_add_spec(a, b),
{
    let s = seq![a, b];
    assert(s.drop_last() =~= seq![a]);
    assert(s.last() == b);
    assert(seq![a].drop_last() =~= Seq::<Seq<i64>>::empty());
    assert(seq![a].last() == a);
    assert(padded_sum(Seq::<Seq<i64>>::empty()) == Seq::<i64>::empty());
    assert(padded_sum(seq![a]) == pad_add_spec(Seq::<i64>::empty(), a));
    lemma_pad_add_empty(a);
    assert(padded_sum(s) == pad_add_spec(a, b));
}

/// `frames` laid out one after another, each padded with silence (or cut)
/// to exactly `channels` interleaved samples.
pub open spec fn interleaved(frames: Seq<Seq<i64>>, channels: int) -> Seq<i64>
    decreases frames.len(),
{
    if frames.len() == 0 {
        Seq::empty()
    } else {
        interleaved(frames.drop_last(), channels) + Seq::new(
            channels as nat,
            |c: int| channel_or_zero(frames.last(), c) as i64,
        )
    }
}

/// A run of consecutive ticks: starting from `states[0]`, the patch
/// produced `frames[j]` on the tick at clock `t0.clock + j` and became
/// `states[j + 1]`.
pub open spec fn produced_run<P: Patch>(
    states: Seq<P>,
    t0: SampleTiming,
    frames: Seq<Seq<i64>>,
) -> bool {
    &&& states.len() == frames.len() + 1
    &&& (forall|j: int|
        0 <= j < frames.len() ==> #[trigger] states[j].produced(
            SampleTiming { sample_rate: t0.sample_rate, clock: (t0.clock + j) as u64 },
            states[j + 1],
            frames[j],
        ))
}

/// A patch that can fill whole interleaved output blocks.
pub trait OutPatch: Patch {
    /// Produce `frame_count` frames, interleaved over `channels` channels
    /// (missing channels padded with silence), ticking the clock once per
    /// frame.  Stops early, without ticking, on the tick a child ends the
    /// composition, and then reports [`CpalEvent::Exit`].  The output holds
    /// exactly the frames the patch produced on the successive ticks.
    fn write_data(&mut self, frame_count: usize, channels: usize, sample_timing: &mut SampleTiming)
        -> (r: (Vec<i64>, Option<CpalEvent>))
        requires
            old(self).ready(*old(sample_timing)),
            channels >= 1,
            old(sample_timing).clock + frame_count <= u64::MAX,
            frame_count * channels <= usize::MAX,
        ensures
            final(sample_timing).sample_rate == old(sample_timing).sample_rate,
            old(sample_timing).clock <= final(sample_timing).clock,
            final(sample_timing).clock <= old(sample_timing).clock + frame_count,
            r.0@.len() == (final(sample_timing).clock - old(sample_timing).clock) * (
            channels as int),
            exists|states: Seq<Self>, frames: Seq<Seq<i64>>|
                {
                    &&& #[trigger] produced_run(states, *old(sample_timing), frames)
                    &&& states[0] == *old(self)
                    &&& states.last() == *final(self)
                    &&& match r.1 {
                        Option::None => {
                            &&& frames.len() == frame_count
                            &&& (forall|j: int|
                                0 <= j < frames.len() ==> #[trigger] frames[j].len() > 0)
                            &&& r.0@ == interleaved(frames, channels as int)
                        },
                        Option::Some(e) => {
                            &&& e == CpalEvent::Exit
                            &&& frames.len() == final(sample_timing).clock - old(
                                sample_timing,
                            ).clock + 1
                            &&& frames.last().len() == 0
                            &&& (forall|j: int|
                                0 <= j < frames.len() - 1 ==> #[trigger] frames[j].len() > 0)
                            &&& r.0@ == interleaved(frames.drop_last(), channels as int)
                        },
                    }
                },
            match r.1 {
                Option::None => final(sample_timing).clock == old(sample_timing).clock
                    + frame_count,
                Option::Some(e) => e == CpalEvent::Exit && final(sample_timing).clock
                    < old(sample_timing).clock + frame_count,
            },
            forall|t2: SampleTiming|
                t2.sample_rate == old(sample_timing).sample_rate
                    && t2.clock >= final(sample_timing).clock
                    ==> #[trigger] final(self).ready(t2),
    ;
}

/// The summing aggregator: exclusively owns an ordered collection of
/// children of one patch type.
pub struct MasterPatch<P: Patch> {
    patches: Vec<P>,
}

impl<P: Patch> View for MasterPatch<P> {
    type V = Seq<P>;

    closed spec fn view(&self) -> Seq<P> {
        self.patches@
    }
}

impl<P: Patch> MasterPatch<P> {
    /// An aggregator with no children.
    pub fn new() -> (r: MasterPatch<P>)
        ensures
            r@.len() == 0,
    {
        MasterPatch { patches: Vec::new() }
    }

    /// Hand a child over to the aggregator, after the existing children.
    pub fn add_patch(&mut self, patch: P)
        ensures
            final(self)@ == old(self)@.push(patch),
    {
        self.patches.push(patch);
    }

    /// How many children the aggregator owns.
    pub fn patch_count(&self) -> (r: usize)
        ensures
            r == self@.len(),
    {
        self.patches.len()
    }
}

impl<P: Patch> Patch for MasterPatch<P> {
    open spec fn ready(&self, timing: SampleTiming) -> bool {
        forall|i: int| 0 <= i < self@.len() ==> #[trigger] self@[i].ready(timing)
    }

    /// One aggregator tick is exactly [`mixed_from`] over the children: the
    /// result is the padded sum of what the children actually produced, or
    /// the zero-channel frame the moment one child produced it.
    open spec fn produced(&self, timing: SampleTiming, next: MasterPatch<P>, out: Seq<i64>) -> bool {
        exists|outs: Seq<Seq<i64>>| #[trigger] mixed_from(self@, next@, timing, outs, out)
    }

    proof fn ready_monotone(&self, t1: SampleTiming, t2: SampleTiming) {
        assert forall|i: int| 0 <= i < self@.len() implies #[trigger] self@[i].ready(t2) by {
            self@[i].ready_monotone(t1, t2);
        }
    }

    /// Sum all children's frames channel-wise with zero-padding, stopping at
    /// the first child that returns the zero-channel frame.
    fn next_sample(&mut self, sample_timing: &SampleTiming) -> (r: PolySample)
        ensures
            old(self)@.len() == 0 ==> r@.len() == 0,
    {
        let ghost t0 = *sample_timing;
        let mut master = PolySample::empty();
        proof {
            assert(master@ =~= padded_sum(Seq::<Seq<i64>>::empty()));
        }
        let ghost mut outs: Seq<Seq<i64>> = Seq::empty();
        let n = self.patches.len();
        proof {
            assert(old(self)@.len() == n);
            assert forall|i: int| 0 <= i < n implies #[trigger] self.patches@[i].ready(t0) by {
                assert(self@[i].ready(t0));
            }
        }
        let mut idx: usize = 0;
        while idx < n
            invariant
                self@ == self.patches@,
                n == self.patches@.len(),
                old(self)@.len() == n,
                idx <= n,
                t0 == *sample_timing,
                outs.len() == idx,
                forall|i: int| 0 <= i < idx ==> #[trigger] outs[i].len() > 0,
                master@ == padded_sum(outs),
                forall|i: int|
                    0 <= i < idx ==> #[trigger] old(self)@[i].produced(
                        t0,
                        self.patches@[i],
                        outs[i],
                    ),
                forall|i: int| idx <= i < n ==> #[trigger] self.patches@[i] == old(self)@[i],
                forall|i: int| idx <= i < n ==> #[trigger] self.patches@[i].ready(t0),
                forall|i: int, t2: SampleTiming|
                    0 <= i < idx && t2.sample_rate == t0.sample_rate && t2.clock >= t0.clock
                        ==> #[trigger] self.patches@[i].ready(t2),
            decreases n - idx,
        {
            let out = self.patches[idx].next_sample(sample_timing);
            if out.is_empty() {
                proof {
                    let prev = outs;
                    outs = outs.push(out@);
                    assert(outs.last() == out@);
                    assert(forall|i: int| 0 <= i < idx ==> outs[i] == prev[i]);
                    assert(mixed_from(old(self)@, self@, t0, outs, Seq::<i64>::empty()));
                    assert forall|i: int, t2: SampleTiming|
                        0 <= i < n && t2.sample_rate == t0.sample_rate && t2.clock
                            >= t0.clock implies #[trigger] self.patches@[i].ready(t2) by {
                        if i > idx {
                            self.patches@[i].ready_monotone(t0, t2);
                        }
                    }
                    assert forall|t2: SampleTiming|
                        t2.sample_rate == t0.sample_rate && t2.clock >= t0.clock implies self.ready(
                        t2,
                    ) by {
                        assert forall|i: int| 0 <= i < self@.len() implies #[trigger] self@[i].ready(
                            t2,
                        ) by {
                            assert(self@[i] == self.patches@[i]);
                            assert(self.patches@[i].ready(t2));
                        }
                    }
                }
                let empty_out = PolySample::empty();
                proof {
                    assert(empty_out@ =~= Seq::<i64>::empty());
                }
                return empty_out;
            }
            master.add(&out);
            idx += 1;
            proof {
                let prev = outs;
                outs = outs.push(out@);
                assert(outs.drop_last() =~= prev);
                assert(outs.last() == out@);
                assert(forall|i: int| 0 <= i < idx - 1 ==> outs[i] == prev[i]);
                assert(master@ == padded_sum(outs));
            }
        }
        proof {
            assert(mixed_from(old(self)@, self@, t0, outs, master@));
            if n == 0 {
                assert(master@ =~= Seq::<i64>::empty());
            }
            assert forall|t2: SampleTiming|
                t2.sample_rate == t0.sample_rate && t2.clock >= t0.clock implies self.ready(
                t2,
            ) by {
                assert forall|i: int| 0 <= i < self@.len() implies #[trigger] self@[i].ready(
                    t2,
                ) by {
                    assert(self@[i] == self.patches@[i]);
                    assert(self.patches@[i].ready(t2));
                }
            }
        }
        master
    }
}

impl<P: Patch> OutPatch for MasterPatch<P> {
    fn write_data(&mut self, frame_count: usize, channels: usize, sample_timing: &mut SampleTiming)
        -> (r: (Vec<i64>, Option<CpalEvent>))
    {
        let ghost rate0 = old(sample_timing).sample_rate;
        let ghost clock0 = old(sample_timing).clock;
        let ghost t0 = *old(sample_timing);
        let mut t = *sample_timing;
        proof {
            assert forall|t2: SampleTiming|
                t2.sample_rate == rate0 && t2.clock >= clock0 implies #[trigger] self.ready(
                t2,
            ) by {
                self.ready_monotone(*old(sample_timing), t2);
            }
        }
        let mut out: Vec<i64> = Vec::new();
        let mut stopped: Option<CpalEvent> = None;
        let ghost mut states: Seq<MasterPatch<P>> = seq![*old(self)];
        let ghost mut frames_g: Seq<Seq<i64>> = Seq::empty();
        let mut f: usize = 0;
        while f < frame_count
            invariant_except_break
                stopped is None,
                states.len() == f + 1,
                frames_g.len() == f,
                out@ == interleaved(frames_g, channels as int),
            invariant
                f <= frame_count,
                channels >= 1,
                frame_count * channels <= usize::MAX,
                t.sample_rate == rate0,
                t.clock == clock0 + f,
                t0.sample_rate == rate0,
                t0.clock == clock0,
                clock0 + frame_count <= u64::MAX,
                out@.len() == f * (channels as int),
                states[0] == *old(self),
                states.last() == *self,
                produced_run(states, t0, frames_g),
                forall|j: int| 0 <= j < f ==> #[trigger] frames_g[j].len() > 0,
                forall|t2: SampleTiming|
                    t2.sample_rate == rate0 && t2.clock >= t.clock ==> #[trigger] self.ready(t2),
            ensures
                f <= frame_count,
                t.sample_rate == rate0,
                t.clock == clock0 + f,
                out@.len() == f * (channels as int),
                states[0] == *old(self),
                states.last() == *self,
                produced_run(states, t0, frames_g),
                forall|t2: SampleTiming|
                    t2.sample_rate == rate0 && t2.clock >= t.clock ==> #[trigger] self.ready(t2),
                match stopped {
                    Option::None => {
                        &&& f == frame_count
                        &&& frames_g.len() == f
                        &&& (forall|j: int|
                            0 <= j < frames_g.len() ==> #[trigger] frames_g[j].len() > 0)
                        &&& out@ == interleaved(frames_g, channels as int)
                    },
                    Option::Some(e) => {
                        &&& e == CpalEvent::Exit
                        &&& f < frame_count
                        &&& frames_g.len() == f + 1
                        &&& frames_g.last().len() == 0
                        &&& (forall|j: int|
                            0 <= j < frames_g.len() - 1 ==> #[trigger] frames_g[j].len() > 0)
                        &&& out@ == interleaved(frames_g.drop_last(), channels as int)
                    },
                },
            decreases frame_count - f,
        {
            let frame = self.next_sample(&t);
            proof {
                let prev_states = states;
                let prev_frames = frames_g;
                states = states.push(*self);
                frames_g = frames_g.push(frame@);
                assert(t == SampleTiming {
                    sample_rate: t0.sample_rate,
                    clock: (t0.clock + f as int) as u64,
                });
                assert forall|j: int|
                    0 <= j < frames_g.len() implies #[trigger] states[j].produced(
                    SampleTiming { sample_rate: t0.sample_rate, clock: (t0.clock + j) as u64 },
                    states[j + 1],
                    frames_g[j],
                ) by {
                    if j < f {
                        assert(states[j] == prev_states[j]);
                        assert(states[j + 1] == prev_states[j + 1]);
                        assert(frames_g[j] == prev_frames[j]);
                        assert(prev_states[j].produced(
                            SampleTiming {
                                sample_rate: t0.sample_rate,
                                clock: (t0.clock + j) as u64,
                            },
                            prev_states[j + 1],
                            prev_frames[j],
                        ));
                    } else {
                        assert(j == f);
                        assert(states[j] == prev_states.last());
                        assert(states[j + 1] == *self);
                        assert(frames_g[j] == frame@);
                    }
                }
                assert(produced_run(states, t0, frames_g));
                assert(frames_g.drop_last() =~= prev_frames);
            }
            if frame.is_empty() {
                stopped = Some(CpalEvent::Exit);
                break ;
            }
            proof {
                assert((f + 1) * (channels as int) <= frame_count * (channels as int))
                    by (nonlinear_arith)
                    requires
                        f + 1 <= frame_count,
                        channels >= 1,
                ;
                assert(f * (channels as int) + channels == (f + 1) * (channels as int))
                    by (nonlinear_arith);
            }
            let ghost out_pre = out@;
            let mut c: usize = 0;
            while c < channels
                invariant
                    c <= channels,
                    out_pre.len() + channels <= usize::MAX,
                    out@ == out_pre + Seq::new(
                        c as nat,
                        |k: int| channel_or_zero(frame@, k) as i64,
                    ),
                decreases channels - c,
            {
                let v: i64 = if c < frame.len() {
                    frame.channel(c)
                } else {
                    0i64
                };
                proof {
                    assert(out@.len() == out_pre.len() + c);
                }
                out.push(v);
                proof {
                    assert(out@ =~= out_pre + Seq::new(
                        (c + 1) as nat,
                        |k: int| channel_or_zero(frame@, k) as i64,
                    ));
                }
                c += 1;
            }
            proof {
                assert(out@ =~= interleaved(frames_g, channels as int));
            }
            t.tick();
            f += 1;
        }
        *sample_timing = t;
        proof {
            if stopped is Some {
                vstd::arithmetic::mul::lemma_mul_is_commutative(
                    frames_g.len() - 1,
                    channels as int,
                );
            }
        }
        (out, stopped)
    }
}

} // verus!

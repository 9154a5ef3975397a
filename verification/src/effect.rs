//! Stateful, history-backed transforms from an incoming frame to an
//! outgoing frame.

use vstd::prelude::*;
use crate::poly_sample::PolySample;
use crate::sample_timing::SampleTiming;

pub mod delay;
pub mod filter;
pub mod lag;

verus! {

/// A stateful transform applied once per tick.
pub trait Effect: Sized {
    /// The internal well-formedness of the effect's state.
    spec fn wf(&self) -> bool;

    /// When the effect may process a frame at `timing`.
    spec fn ready(&self, timing: SampleTiming) -> bool;

    /// Which incoming frames the effect accepts.
    spec fn accepts(&self, input: Seq<i64>) -> bool;

    /// Readiness never expires as the clock advances at a fixed rate.
    proof fn ready_monotone(&self, t1: SampleTiming, t2: SampleTiming)
        requires
            self.ready(t1),
            t2.sample_rate == t1.sample_rate,
            t1.clock <= t2.clock,
        ensures
            self.ready(t2),
    ;

    /// Transform this tick's frame, updating the effect's history.
    fn process(&mut self, sample_timing: &SampleTiming, poly_sample: PolySample) -> (r: PolySample)
        requires
            old(self).wf(),
            old(self).ready(*sample_timing),
            old(self).accepts(poly_sample@),
        ensures
            final(self).wf(),
            forall|t2: SampleTiming|
                t2.sample_rate == sample_timing.sample_rate && t2.clock >= sample_timing.clock
                    ==> #[trigger] final(self).ready(t2),
    ;
}

/// The per-channel views of a sequence of frames.
pub open spec fn frames_deep(s: Seq<PolySample>) -> Seq<Seq<i64>> {
    s.map_values(|p: PolySample| p@)
}

} // verus!

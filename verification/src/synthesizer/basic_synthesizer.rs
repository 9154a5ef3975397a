//! A simple synthesizer voice: one generator, one envelope, one trigger.
//!
//! The voice is created muted.  `play` arms a pending trigger; the
//! transition to playing happens on the next tick, which resets the
//! envelope's start tick.  While playing, the output is the generator's
//! frame scaled by the volume and modulated by the envelope; the voice
//! never mutes itself again, even after the envelope has decayed to zero.
//! While muted, the output is the zero-channel "no output" frame — which is
//! different from a frame of zero-valued samples — and the generator is not
//! consulted at all.

use vstd::prelude::*;
use crate::generator::adsr::{adsr_level_spec, AdsrGenerator};
use crate::generator::Generator;
use crate::patch::Patch;
use crate::poly_sample::{apply_spec, scale_spec, PolySample};
use crate::sample_timing::SampleTiming;

verus! {

/// A generator behind an attack–decay–sustain–release envelope, with a
/// muted/playing state and a pending trigger flag.
pub struct BasicSynthesizer<G: Generator> {
    /// The raw waveform source.
    pub base_generator: G,
    /// The amplitude envelope applied to every played note.
    pub adsr: AdsrGenerator,
    /// Output volume, in millionths of full scale.
    pub volume: i64,
    /// The tick at which the current note started.
    pub start_tick: u64,
    /// Whether a trigger is pending: set by `play`, consumed by the next
    /// tick, which resets the envelope's start tick.
    pub new_note: bool,
    /// Whether the voice is muted; a muted voice produces "no output".
    pub muted: bool,
}

impl<G: Generator> BasicSynthesizer<G> {
    /// A muted voice at volume `volume`, triggerable via `play`.
    pub fn new(base_generator: G, adsr: AdsrGenerator, volume: i64) -> (r: BasicSynthesizer<G>)
        ensures
            r.base_generator == base_generator,
            r.adsr == adsr,
            r.volume == volume,
            r.start_tick == 0,
            !r.new_note,
            r.muted,
    {
        BasicSynthesizer {
            base_generator,
            adsr,
            volume,
            start_tick: 0,
            new_note: false,
            muted: true,
        }
    }

    /// Arm a note of `sustain` millionths of a second: the envelope's
    /// sustain time is set now, and the voice starts playing on the next
    /// tick.
    pub fn play(&mut self, sustain: u64)
        ensures
            final(self).adsr.sustain == sustain,
            final(self).adsr.attack == old(self).adsr.attack,
            final(self).adsr.decay == old(self).adsr.decay,
            final(self).adsr.sustain_level == old(self).adsr.sustain_level,
            final(self).adsr.release == old(self).adsr.release,
            final(self).new_note,
            final(self).base_generator == old(self).base_generator,
            final(self).volume == old(self).volume,
            final(self).start_tick == old(self).start_tick,
            final(self).muted == old(self).muted,
    {
        self.adsr.sustain = sustain;
        self.new_note = true;
    }
}

impl<G: Generator> Default for BasicSynthesizer<G> where G: Default {
    /// A muted voice around the generator's default configuration, at a
    /// tenth of full volume.
    fn default() -> (r: BasicSynthesizer<G>)
        ensures
            r.adsr == (AdsrGenerator {
                attack: 0,
                decay: 0,
                sustain_level: 1_000_000i64,
                sustain: 0,
                release: 0,
            }),
            r.volume == 100_000i64,
            r.start_tick == 0,
            !r.new_note,
            r.muted,
    {
        BasicSynthesizer {
            base_generator: G::default(),
            adsr: AdsrGenerator {
                attack: 0,
                decay: 0,
                sustain_level: 1_000_000,
                sustain: 0,
                release: 0,
            },
            volume: 100_000,
            start_tick: 0,
            new_note: false,
            muted: true,
        }
    }
}

impl<G: Generator> Patch for BasicSynthesizer<G> {
    open spec fn ready(&self, timing: SampleTiming) -> bool {
        &&& timing.sample_rate >= 1
        &&& 0 <= self.adsr.sustain_level <= 1_000_000
        &&& if self.new_note {
            self.base_generator.ready(
                SampleTiming { sample_rate: timing.sample_rate, clock: 0 },
            )
        } else {
            &&& self.start_tick <= timing.clock
            &&& self.base_generator.ready(
                SampleTiming {
                    sample_rate: timing.sample_rate,
                    clock: (timing.clock - self.start_tick) as u64,
                },
            )
        }
    }

    /// One tick of the voice.  A pending trigger starts the note at this
    /// clock position.  A voice that stays muted leaves its generator
    /// untouched and yields the zero-channel frame; otherwise the output is
    /// exactly the base generator's frame (bound through the generator's
    /// own `produced` relation) scaled by the volume and modulated by the
    /// envelope evaluated at the note-relative clock.
    open spec fn produced(
        &self,
        timing: SampleTiming,
        next: BasicSynthesizer<G>,
        out: Seq<i64>,
    ) -> bool {
        let started = if self.new_note {
            timing.clock
        } else {
            self.start_tick
        };
        let shifted = SampleTiming {
            sample_rate: timing.sample_rate,
            clock: (timing.clock - started) as u64,
        };
        &&& !next.new_note
        &&& next.start_tick == started
        &&& next.muted == (self.muted && !self.new_note)
        &&& next.volume == self.volume
        &&& next.adsr == self.adsr
        &&& if self.muted && !self.new_note {
            &&& next.base_generator == self.base_generator
            &&& out.len() == 0
        } else {
            exists|g: Seq<i64>|
                {
                    &&& self.base_generator.produced(shifted, next.base_generator, g)
                    &&& out == apply_spec(
                        #[trigger] scale_spec(g, self.volume as int),
                        seq![
                            adsr_level_spec(
                                timing.sample_rate as int,
                                timing.clock - started,
                                self.adsr.attack as int,
                                self.adsr.decay as int,
                                self.adsr.sustain_level as int,
                                self.adsr.sustain as int,
                                self.adsr.release as int,
                            ) as i64,
                        ],
                    )
                }
        }
    }

    proof fn ready_monotone(&self, t1: SampleTiming, t2: SampleTiming) {
        if !self.new_note {
            self.base_generator.ready_monotone(
                SampleTiming {
                    sample_rate: t1.sample_rate,
                    clock: (t1.clock - self.start_tick) as u64,
                },
                SampleTiming {
                    sample_rate: t2.sample_rate,
                    clock: (t2.clock - self.start_tick) as u64,
                },
            );
        }
    }

    fn next_sample(&mut self, sample_timing: &SampleTiming) -> (r: PolySample) {
        if self.new_note {
            self.start_tick = sample_timing.clock;
            self.new_note = false;
            self.muted = false;
        }
        let shifted = sample_timing.minus_samples(self.start_tick);
        let ghost started = if old(self).new_note {
            sample_timing.clock
        } else {
            old(self).start_tick
        };
        proof {
            assert(self.start_tick == started);
            assert(shifted == SampleTiming {
                sample_rate: sample_timing.sample_rate,
                clock: (sample_timing.clock - started) as u64,
            });
        }
        if self.muted {
            let out = PolySample::empty();
            proof {
                assert(out@.len() == 0);
                assert(old(self).produced(*sample_timing, *self, out@));
                assert forall|t2: SampleTiming|
                    t2.sample_rate == sample_timing.sample_rate && t2.clock
                        >= sample_timing.clock implies #[trigger] self.ready(t2) by {
                    self.base_generator.ready_monotone(
                        shifted,
                        SampleTiming {
                            sample_rate: t2.sample_rate,
                            clock: (t2.clock - self.start_tick) as u64,
                        },
                    );
                }
            }
            out
        } else {
            let mut ps = self.base_generator.generate(&shifted);
            let ghost g0 = ps@;
            ps.scale(self.volume);
            let env = self.adsr.generate(&shifted);
            ps.apply(&env);
            proof {
                assert forall|t2: SampleTiming|
                    t2.sample_rate == sample_timing.sample_rate && t2.clock
                        >= sample_timing.clock implies #[trigger] self.ready(t2) by {
                    assert(self.base_generator.ready(
                        SampleTiming {
                            sample_rate: t2.sample_rate,
                            clock: (t2.clock - self.start_tick) as u64,
                        },
                    ));
                }
                assert(old(self).base_generator.produced(
                    SampleTiming {
                        sample_rate: sample_timing.sample_rate,
                        clock: (sample_timing.clock - started) as u64,
                    },
                    self.base_generator,
                    g0,
                ));
                assert(env@ == seq![
                    adsr_level_spec(
                        sample_timing.sample_rate as int,
                        sample_timing.clock - started,
                        old(self).adsr.attack as int,
                        old(self).adsr.decay as int,
                        old(self).adsr.sustain_level as int,
                        old(self).adsr.sustain as int,
                        old(self).adsr.release as int,
                    ) as i64,
                ]);
                assert(ps@ == apply_spec(scale_spec(g0, old(self).volume as int), env@));
                assert(old(self).produced(*sample_timing, *self, ps@));
            }
            ps
        }
    }
}

} // verus!

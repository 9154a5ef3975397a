use dawrs::generator::adsr::AdsrGenerator;
use dawrs::generator::triangle::TriangleGenerator;
use dawrs::patch::{CpalEvent, MasterPatch, OutPatch, Patch};
use dawrs::sample_timing::SampleTiming;
use dawrs::synthesizer::basic_synthesizer::BasicSynthesizer;

type TriangleVoice = BasicSynthesizer<TriangleGenerator>;

/// A voice that outputs a constant level while its note is held: a triangle
/// generator read at cycle start (+1) under a flat envelope.
fn steady_voice(volume: i64) -> TriangleVoice {
    // Envelope: no attack, no decay, sustain level one.  Triangle at its
    // cycle start contributes +1, so the held output is exactly `volume`.
    BasicSynthesizer::new(
        TriangleGenerator::new(440_000_000).unwrap(),
        AdsrGenerator::new(0, 0, 1_000_000, 0, 0),
        volume,
    )
}

#[test]
fn muted_voice_produces_no_output() {
    let t = SampleTiming::new(48_000);
    let mut synth = steady_voice(200_000);
    let out = synth.next_sample(&t);
    assert!(out.is_empty());
    assert!(synth.muted);
}

#[test]
fn play_takes_effect_on_the_next_tick() {
    let mut t = SampleTiming::new(48_000);
    let mut synth = steady_voice(200_000);
    synth.play(1_000_000); // hold the note for one second
    assert!(synth.muted); // still muted until the next tick
    let out = synth.next_sample(&t);
    assert_eq!(out.samples, vec![200_000]);
    assert!(!synth.muted);
    assert_eq!(synth.start_tick, 0);
    t.tick();
    let out2 = synth.next_sample(&t);
    assert_eq!(out2.samples.len(), 1);
}

#[test]
fn voice_stays_playing_after_the_envelope_ends() {
    // Once triggered, the voice keeps producing (possibly silent) one-channel
    // frames; it never returns to the zero-channel marker by itself.
    let mut synth = steady_voice(500_000);
    synth.play(10_000);
    let t0 = SampleTiming::new(48_000);
    let first = synth.next_sample(&t0);
    assert_eq!(first.samples.len(), 1);
    let late = SampleTiming { sample_rate: 48_000, clock: 100_000 };
    let out = synth.next_sample(&late);
    assert_eq!(out.samples, vec![0]); // silent, but not "no output"
    assert!(!synth.muted);
}

#[test]
fn master_patch_sums_children_with_padding() {
    // Children holding 0.2 and 0.3 sum to 0.5 on the same tick.
    let t = SampleTiming::new(48_000);
    let mut master: MasterPatch<TriangleVoice> = MasterPatch::new();
    let mut a = steady_voice(200_000);
    a.play(1_000_000);
    let mut b = steady_voice(300_000);
    b.play(1_000_000);
    master.add_patch(a);
    master.add_patch(b);
    assert_eq!(master.patch_count(), 2);
    let out = master.next_sample(&t);
    assert_eq!(out.samples, vec![500_000]);
}

#[test]
fn one_silent_child_stops_the_whole_tick() {
    // A child that returns the zero-channel frame forces the aggregate to
    // be zero-channel, whatever the other children produce.
    let t = SampleTiming::new(48_000);
    let mut master: MasterPatch<TriangleVoice> = MasterPatch::new();
    let mut loud = steady_voice(200_000);
    loud.play(1_000_000);
    master.add_patch(loud);
    master.add_patch(steady_voice(300_000)); // never played: still muted
    let out = master.next_sample(&t);
    assert!(out.is_empty());
}

#[test]
fn master_patch_without_children_is_silent() {
    let t = SampleTiming::new(48_000);
    let mut master: MasterPatch<TriangleVoice> = MasterPatch::new();
    let out = master.next_sample(&t);
    assert!(out.is_empty());
}

#[test]
fn write_data_interleaves_and_ticks() {
    let mut t = SampleTiming::new(48_000);
    let mut master: MasterPatch<TriangleVoice> = MasterPatch::new();
    let mut voice = steady_voice(200_000);
    voice.play(1_000_000);
    master.add_patch(voice);
    let (data, event) = master.write_data(4, 2, &mut t);
    assert!(event.is_none());
    assert_eq!(t.clock, 4);
    assert_eq!(data.len(), 8);
    // One-channel frames are padded with silence on the second channel.
    for frame in data.chunks(2) {
        assert_eq!(frame[1], 0);
        assert!(frame[0].abs() <= 200_000);
    }
}

#[test]
fn write_data_reports_exit_on_a_silent_tick() {
    let mut t = SampleTiming::new(48_000);
    let mut master: MasterPatch<TriangleVoice> = MasterPatch::new();
    master.add_patch(steady_voice(200_000)); // muted: ends at once
    let (data, event) = master.write_data(4, 2, &mut t);
    assert_eq!(event, Some(CpalEvent::Exit));
    assert_eq!(data.len(), 0);
    assert_eq!(t.clock, 0); // the silent tick is not counted
}

#[test]
fn triangle_note_end_to_end() {
    // A 40 Hz triangle voice at 48 kHz, volume 0.5, envelope with a 0.01 s
    // attack to full scale, no decay, sustain level 0.9 and no release,
    // triggered for a 0.01 s sustain: the envelope peaks by clock 480, the
    // waveform's own peak puts the signal at 0.9 x volume at clock 600, and
    // everything is silent again from clock 960 on.
    let mut synth = BasicSynthesizer::new(
        TriangleGenerator::new(40_000_000).unwrap(),
        AdsrGenerator::new(10_000, 0, 900_000, 0, 0),
        500_000,
    );
    synth.play(10_000);
    let mut outputs = Vec::new();
    for clock in 0..1_200u64 {
        let t = SampleTiming { sample_rate: 48_000, clock };
        outputs.push(synth.next_sample(&t).samples[0]);
    }
    // The attack starts from silence.
    assert_eq!(outputs[0], 0);
    // Peak amplitude is exactly 0.9 x 0.5 at the triangle's trough.
    assert_eq!(outputs[600], -450_000);
    let peak = outputs.iter().map(|v| v.abs()).max().unwrap();
    assert_eq!(peak, 450_000);
    let argmax = (0..outputs.len()).max_by_key(|i| outputs[*i].abs()).unwrap();
    assert_eq!(argmax, 600);
    // After attack plus sustain (0.02 s = 960 ticks) the note has released.
    for clock in 960..1_200 {
        assert_eq!(outputs[clock], 0, "clock {clock}");
    }
}

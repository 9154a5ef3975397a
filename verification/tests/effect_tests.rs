use rustfft::num_complex::Complex;

use dawrs::effect::delay::Delay;
use dawrs::effect::filter::{apply_gains, lowpass_gains, scale_block_output, LowPassFilter};
use dawrs::effect::lag::Lag;
use dawrs::effect::Effect;
use dawrs::poly_sample::PolySample;
use dawrs::sample_timing::SampleTiming;
use dawrs::ConfigurationError;

fn mono(x: i64) -> PolySample {
    PolySample::mono(x)
}

#[test]
fn delay_passes_through_until_full_then_echoes() {
    // 3 s of delay at 1 Hz sample rate: a three-frame history.
    let t = SampleTiming { sample_rate: 1, clock: 0 };
    let mut d = Delay::new(3_000_000, 500_000);
    let inputs = [1_000_000i64, 2_000_000, 3_000_000, 4_000_000, 6_000_000];
    let mut outputs = Vec::new();
    for x in inputs {
        outputs.push(d.process(&t, mono(x)).samples[0]);
    }
    // Before the history is full, the input passes through unchanged; from
    // then on the input from three ticks earlier is mixed in at half scale.
    assert_eq!(
        outputs,
        vec![1_000_000, 2_000_000, 3_000_000, 4_000_000 + 500_000, 6_000_000 + 1_000_000]
    );
}

#[test]
fn delay_with_zero_feedback_is_identity() {
    let t = SampleTiming { sample_rate: 1, clock: 0 };
    let mut d = Delay::new(2_000_000, 0);
    for x in [5i64, -7, 9, 11, 13, -1] {
        let out = d.process(&t, mono(x));
        assert_eq!(out.samples, vec![x]);
    }
}

#[test]
fn delay_history_growth_is_bounded() {
    let t = SampleTiming { sample_rate: 1, clock: 0 };
    let mut d = Delay::new(2_000_000, 100_000);
    for x in 0..10 {
        d.process(&t, mono(x));
        assert!(d.buffered() <= 2);
    }
    assert_eq!(d.buffered(), 2);
}

#[test]
fn lag_with_zero_start_chance_is_passthrough() {
    // The loop never starts, so the effect is the identity regardless of
    // the random draws.
    let t = SampleTiming { sample_rate: 1, clock: 0 };
    let mut lag = Lag::new(0, 0, 3_000_000, 0);
    for x in [10i64, 20, 30, 40, 50, 60, 70] {
        let out = lag.process(&t, mono(x));
        assert_eq!(out.samples, vec![x]);
    }
}

#[test]
fn lag_step_captures_and_loops_deterministically() {
    // Always start (chance one), never stop (chance zero), capture exactly
    // the three-frame window.
    let t = SampleTiming { sample_rate: 1, clock: 0 };
    let mut lag = Lag::new(1_000_000, 0, 3_000_000, 0);
    let mut outputs = Vec::new();
    for x in [10i64, 20, 30, 40, 50, 60, 70, 80] {
        outputs.push(lag.step_with(&t, mono(x), 999_999, 0).samples[0]);
    }
    // Three passthrough ticks fill the window; the fourth tick captures
    // [10, 20, 30] and still passes its input through; playback then loops
    // the captured slice, wrapping around.
    assert_eq!(outputs, vec![10, 20, 30, 40, 10, 20, 30, 10]);
}

#[test]
fn lag_stop_chance_one_ends_the_loop_at_once() {
    let t = SampleTiming { sample_rate: 1, clock: 0 };
    let mut lag = Lag::new(1_000_000, 1_000_000, 2_000_000, 0);
    let mut outputs = Vec::new();
    for x in [1i64, 2, 3, 4, 5, 6] {
        outputs.push(lag.step_with(&t, mono(x), 0, 0).samples[0]);
    }
    // Window fills over two ticks; tick 3 captures [1, 2] while passing its
    // input through; tick 4 plays the captured frame 1 and stops at once;
    // tick 5 captures afresh and passes through; tick 6 plays that slice's
    // oldest frame, 3.  The draw 0 is below both chances every tick.
    assert_eq!(outputs, vec![1, 2, 3, 1, 5, 3]);
}

#[test]
fn lag_always_starts_once_window_is_ready() {
    // With a start chance of one, any draw below one million triggers the
    // capture as soon as the window is long enough: the output then stops
    // following the live input.
    let t = SampleTiming { sample_rate: 1, clock: 0 };
    let mut lag = Lag::new(1_000_000, 0, 2_000_000, 0);
    let mut outputs = Vec::new();
    for x in [100i64, 200, 300, 400, 500] {
        outputs.push(lag.process(&t, mono(x)).samples[0]);
    }
    assert_eq!(outputs, vec![100, 200, 300, 100, 200]);
}

#[test]
fn lowpass_gain_table_is_exact() {
    // 8-point blocks at 48 kHz with a 12 kHz cutoff: bin frequencies are
    // multiples of 6 kHz, so the gains fall 1, 0.5, 0, 0, ...
    let gains = lowpass_gains(48_000, 8, 12_000_000_000);
    assert_eq!(gains, vec![1_000_000, 500_000, 0, 0, 0, 0, 0, 0]);
}

#[test]
fn apply_gains_scales_both_parts() {
    let bins = vec![(1_000_000i64, -2_000_000i64), (4_000_000, 0)];
    let gains = vec![500_000i64, 0];
    let scaled = apply_gains(&bins, &gains);
    assert_eq!(scaled, vec![(500_000, -1_000_000), (0, 0)]);
}

#[test]
fn scale_block_output_rounds_toward_zero() {
    assert_eq!(scale_block_output(7, 2), 3);
    assert_eq!(scale_block_output(-7, 2), -3);
    assert_eq!(scale_block_output(8_000_000, 8), 1_000_000);
}

#[test]
fn filter_constructor_rejects_bad_parameters() {
    assert_eq!(LowPassFilter::new(0, 8).unwrap_err(), ConfigurationError::ZeroFrequency);
    assert_eq!(LowPassFilter::new(1_000, 0).unwrap_err(), ConfigurationError::ZeroLength);
    let f = LowPassFilter::new(900_000_000, 512).unwrap();
    assert_eq!(f.cutoff, 900_000_000);
    assert_eq!(f.length, 512);
}

#[test]
fn filter_ring_fills_then_hands_out_blocks() {
    let mut f = LowPassFilter::new(10_000_000_000, 3).unwrap();
    assert!(f.begin_block(&mono(10)).is_none());
    assert!(f.begin_block(&mono(20)).is_none());
    assert!(f.begin_block(&mono(30)).is_none());
    // The ring now holds [10, 20, 30]; the next tick hands it out whole and
    // evicts the oldest sample.
    let block = f.begin_block(&mono(40)).unwrap();
    assert_eq!(block, vec![10, 20, 30]);
    let block2 = f.begin_block(&mono(50)).unwrap();
    assert_eq!(block2, vec![20, 30, 40]);
}

#[test]
fn filter_block_pipeline_passes_dc_through() {
    // A constant signal is all DC: with a cutoff far above every bin
    // frequency the gains are all one, so transforming, scaling and
    // inverting a block must reproduce the constant (up to float noise
    // from the transform itself).
    let level = 500_000i64;
    let mut f = LowPassFilter::new(u64::MAX, 8).unwrap();
    let mut out = None;
    for _ in 0..9 {
        out = f.begin_block(&mono(level));
    }
    let block = out.expect("ring should be full after eight samples");
    let gains = lowpass_gains(48_000, 8, u64::MAX);
    assert_eq!(gains, vec![1_000_000; 8]);

    let mut buf: Vec<Complex<f32>> = block
        .iter()
        .map(|s| Complex { re: *s as f32 / 1_000_000.0, im: 0.0 })
        .collect();
    rustfft::FftPlanner::new().plan_fft_forward(8).process(&mut buf);
    let bins: Vec<(i64, i64)> = buf
        .iter()
        .map(|z| ((z.re * 1_000_000.0) as i64, (z.im * 1_000_000.0) as i64))
        .collect();
    let scaled = apply_gains(&bins, &gains);
    let mut inv: Vec<Complex<f32>> = scaled
        .iter()
        .map(|(re, im)| Complex { re: *re as f32 / 1_000_000.0, im: *im as f32 / 1_000_000.0 })
        .collect();
    rustfft::FftPlanner::new().plan_fft_inverse(8).process(&mut inv);
    let first = (inv[0].re * 1_000_000.0) as i64;
    let result = scale_block_output(first, 8);
    assert!((result - level).abs() <= 2_000, "got {result}, wanted about {level}");
}

#[test]
fn delay_drains_after_shrinking() {
    // Shrinking the delay at runtime takes effect on the next tick: the
    // over-full history drops everything older than the new count.
    let t = SampleTiming { sample_rate: 1, clock: 0 };
    let mut d = Delay::new(3_000_000, 0);
    for x in [1i64, 2, 3] {
        d.process(&t, mono(x));
    }
    assert_eq!(d.buffered(), 3);
    d.delay = 1_000_000; // one sample of delay from now on
    let out = d.process(&t, mono(4));
    assert_eq!(out.samples, vec![4]); // feedback is zero: passthrough
    assert_eq!(d.buffered(), 1);
    // From here on the echo really is one sample behind.
    let mut d2 = d;
    d2.feedback = 1_000_000;
    let out2 = d2.process(&t, mono(10));
    assert_eq!(out2.samples, vec![10 + 4]);
}

#[test]
fn filter_ring_drains_after_shrinking() {
    let mut f = LowPassFilter::new(10_000_000_000, 3).unwrap();
    for x in [10i64, 20, 30] {
        assert!(f.begin_block(&mono(x)).is_none());
    }
    f.length = 2;
    // The over-full ring hands out the oldest two samples and drains.
    assert_eq!(f.begin_block(&mono(40)).unwrap(), vec![10, 20]);
    assert_eq!(f.begin_block(&mono(50)).unwrap(), vec![30, 40]);
}

#[test]
fn lag_tolerates_a_sub_sample_window() {
    // A window shorter than one sample keeps only the newest frame; the
    // effect still passes its input through without starting a loop.
    let t = SampleTiming { sample_rate: 1, clock: 0 };
    let mut lag = Lag::new(0, 0, 0, 0);
    for x in [4i64, 5, 6] {
        let out = lag.process(&t, mono(x));
        assert_eq!(out.samples, vec![x]);
    }
}

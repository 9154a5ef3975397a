use dawrs::sample_timing::SampleTiming;
use dawrs::ConfigurationError;

#[test]
fn clock_starts_at_zero_and_ticks() {
    let mut t = SampleTiming::new(48_000);
    assert_eq!(t.clock, 0);
    assert_eq!(t.sample_rate, 48_000);
    t.tick();
    t.tick();
    assert_eq!(t.clock, 2);
}

#[test]
fn default_clock_rate() {
    let t = SampleTiming::default();
    assert_eq!(t.sample_rate, 44_000);
    assert_eq!(t.clock, 0);
}

#[test]
fn duration_to_sample_count_floors() {
    let t = SampleTiming::new(48_000);
    // 0.5 s at 48 kHz is 24000 samples.
    assert_eq!(t.duration_to_sample_count(500_000), 24_000);
    // 10 microseconds at 48 kHz is 0.48 samples, floored to 0.
    assert_eq!(t.duration_to_sample_count(10), 0);
    // 0.3 s at 44.1 kHz is 13230 samples.
    let t2 = SampleTiming::new(44_100);
    assert_eq!(t2.duration_to_sample_count(300_000), 13_230);
}

#[test]
fn sample_clock_is_exact_rational() {
    let mut t = SampleTiming::new(48_000);
    for _ in 0..100 {
        t.tick();
    }
    let s = t.sample_clock();
    assert_eq!(s.num, 100);
    assert_eq!(s.den, 48_000);
}

#[test]
fn phase_with_frequency_is_in_cycle_range() {
    // 440 Hz at 48 kHz: the phase always stays below 1/440 s.
    let mut t = SampleTiming::new(48_000);
    for _ in 0..5000 {
        let phase = t.sample_clock_with_frequency(440_000_000).unwrap();
        // phase < 1/440 s  <=>  num * 440e6 < den * 1e6.
        assert!((phase.num as u128) * 440_000_000 < (phase.den as u128) * 1_000_000);
        t.tick();
    }
}

#[test]
fn phase_with_frequency_exact_value() {
    // 100 ticks at 48 kHz against 440 Hz: 100/48000 s is within the first
    // cycle's fold, so the phase is 100*440e6 mod 48e9 over 48000*440e6.
    let mut t = SampleTiming::new(48_000);
    for _ in 0..100 {
        t.tick();
    }
    let phase = t.sample_clock_with_frequency(440_000_000).unwrap();
    assert_eq!(phase.den, 48_000u64 * 440_000_000);
    assert_eq!(phase.num, (100u64 * 440_000_000) % (48_000 * 1_000_000));
}

#[test]
fn phase_with_frequency_is_periodic() {
    // 40 Hz at 48 kHz: one cycle is exactly 1200 ticks, so the phase
    // repeats with period 1200, however far the clock runs.
    let period = 1200u64;
    for start in [0u64, 7, 1199, 1200, 123_456_789] {
        let a = SampleTiming { sample_rate: 48_000, clock: start };
        let b = SampleTiming { sample_rate: 48_000, clock: start + period };
        let pa = a.sample_clock_with_frequency(40_000_000).unwrap();
        let pb = b.sample_clock_with_frequency(40_000_000).unwrap();
        assert_eq!(pa, pb);
    }
}

#[test]
fn zero_frequency_is_rejected() {
    let t = SampleTiming::new(48_000);
    assert_eq!(
        t.sample_clock_with_frequency(0),
        Err(ConfigurationError::ZeroFrequency)
    );
}

#[test]
fn position_with_length_wraps_exactly() {
    // A 0.5 s window at 10 Hz sample rate: tick 7 is 0.7 s, which is 0.2 s
    // into the second window.
    let t = SampleTiming { sample_rate: 10, clock: 7 };
    let pos = t.sample_clock_with_length(500_000).unwrap();
    assert_eq!(pos.den, 10_000_000);
    assert_eq!(pos.num, 2_000_000); // 2e6 / 1e7 = 0.2 s
}

#[test]
fn zero_length_is_rejected() {
    let t = SampleTiming::new(48_000);
    assert_eq!(t.sample_clock_with_length(0), Err(ConfigurationError::ZeroLength));
}

#[test]
fn shifted_clocks_do_not_mutate() {
    let t = SampleTiming { sample_rate: 48_000, clock: 100 };
    let fwd = t.plus_samples(50);
    let back = t.minus_samples(25);
    assert_eq!(t.clock, 100);
    assert_eq!(fwd.clock, 150);
    assert_eq!(back.clock, 75);
    assert_eq!(fwd.sample_rate, 48_000);
    let sum = t.plus_timing(&fwd);
    let diff = fwd.minus_timing(&t);
    assert_eq!(sum.clock, 250);
    assert_eq!(diff.clock, 50);
}

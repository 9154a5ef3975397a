use dawrs::generator::adsr::AdsrGenerator;
use dawrs::generator::sine::SineGenerator;
use dawrs::generator::triangle::TriangleGenerator;
use dawrs::generator::Generator;
use dawrs::sample_timing::SampleTiming;
use dawrs::ConfigurationError;

fn at(clock: u64) -> SampleTiming {
    SampleTiming { sample_rate: 48_000, clock }
}

#[test]
fn sine_constructor_rejects_zero_frequency() {
    assert_eq!(SineGenerator::new(0).unwrap_err(), ConfigurationError::ZeroFrequency);
    assert_eq!(SineGenerator::new(440_000_000).unwrap().frequency, 440_000_000);
    assert_eq!(SineGenerator::default().frequency, 440_000_000);
}

#[test]
fn triangle_constructor_rejects_zero_frequency() {
    assert_eq!(TriangleGenerator::new(0).unwrap_err(), ConfigurationError::ZeroFrequency);
    assert_eq!(TriangleGenerator::default().frequency, 440_000_000);
}

#[test]
fn sine_hits_its_quarter_cycle_landmarks() {
    // 40 Hz at 48 kHz: one cycle is 1200 ticks.
    let mut g = SineGenerator::new(40_000_000).unwrap();
    assert_eq!(g.generate(&at(0)).samples, vec![0]); // cycle start
    assert_eq!(g.generate(&at(300)).samples, vec![1_000_000]); // positive peak
    assert_eq!(g.generate(&at(600)).samples, vec![0]); // half cycle
    assert_eq!(g.generate(&at(900)).samples, vec![-1_000_000]); // negative peak
    assert_eq!(g.generate(&at(1200)).samples, vec![0]); // full cycle
}

#[test]
fn sine_is_bounded_and_antisymmetric() {
    let mut g = SineGenerator::new(441_000_000).unwrap();
    for clock in 0..2000 {
        let v = g.generate(&at(clock)).samples[0];
        assert!((-1_000_000..=1_000_000).contains(&v));
    }
}

#[test]
fn triangle_ramps_between_its_peaks() {
    // 40 Hz at 48 kHz: starts at +1, reaches -1 at the half cycle, and is
    // zero a quarter of the way through each slope.
    let mut g = TriangleGenerator::new(40_000_000).unwrap();
    assert_eq!(g.generate(&at(0)).samples, vec![1_000_000]);
    assert_eq!(g.generate(&at(300)).samples, vec![0]);
    assert_eq!(g.generate(&at(600)).samples, vec![-1_000_000]);
    assert_eq!(g.generate(&at(900)).samples, vec![0]);
    assert_eq!(g.generate(&at(1200)).samples, vec![1_000_000]);
}

#[test]
fn adsr_landmarks() {
    // attack 0.05 s, decay 0.05 s, sustain level 0.7, sustain 0.2 s,
    // release 0.1 s, at 48 kHz.
    let mut env = AdsrGenerator::new(50_000, 50_000, 700_000, 200_000, 100_000);
    // elapsed 0: the attack ramp starts at zero.
    assert_eq!(env.generate(&at(0)).samples, vec![0]);
    // elapsed 0.05 s: top of the attack.
    assert_eq!(env.generate(&at(2_400)).samples, vec![1_000_000]);
    // elapsed 0.10 s: decayed down to the sustain level.
    assert_eq!(env.generate(&at(4_800)).samples, vec![700_000]);
    // elapsed 0.30 s: still sustaining... the release starts here.
    assert_eq!(env.generate(&at(14_400)).samples, vec![700_000]);
    // elapsed 0.40 s: released to zero.
    assert_eq!(env.generate(&at(19_200)).samples, vec![0]);
    // ever after: zero.
    assert_eq!(env.generate(&at(25_000)).samples, vec![0]);
    assert_eq!(env.generate(&at(1_000_000)).samples, vec![0]);
}

#[test]
fn adsr_ramps_are_monotone_within_phases() {
    let mut env = AdsrGenerator::new(50_000, 50_000, 700_000, 200_000, 100_000);
    let mut prev = -1i64;
    // Attack: levels never decrease.
    for clock in 0..2_400 {
        let v = env.generate(&at(clock)).samples[0];
        assert!(v >= prev);
        prev = v;
    }
    // Release: levels never increase.
    let mut prev = 1_000_001i64;
    for clock in 14_400..19_200 {
        let v = env.generate(&at(clock)).samples[0];
        assert!(v <= prev);
        prev = v;
    }
}

#[test]
fn adsr_total_duration_sums_the_phases() {
    let env = AdsrGenerator::new(50_000, 50_000, 700_000, 200_000, 100_000);
    assert_eq!(env.total_duration(), 400_000);
    let dflt = AdsrGenerator::default();
    assert_eq!(dflt.total_duration(), 0);
    assert_eq!(dflt.sustain_level, 1_000_000);
}

#[test]
fn generators_are_pure_in_the_clock() {
    // Replaying the same clock position reproduces the same output.
    let mut g = SineGenerator::new(440_000_000).unwrap();
    let first = g.generate(&at(12_345));
    let again = g.generate(&at(12_345));
    assert_eq!(first.samples, again.samples);
}

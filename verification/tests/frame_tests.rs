use dawrs::poly_sample::PolySample;

fn frame(samples: &[i64]) -> PolySample {
    PolySample::from_samples(samples.to_vec())
}

#[test]
fn add_zero_pads_to_longer() {
    let mut a = frame(&[1, 2, 3]);
    a.add(&frame(&[10]));
    assert_eq!(a.samples, vec![11, 2, 3]);

    let mut b = frame(&[10]);
    b.add(&frame(&[1, 2, 3]));
    assert_eq!(b.samples, vec![11, 2, 3]);
}

#[test]
fn add_saturates_at_the_rails() {
    let mut a = frame(&[i64::MAX, i64::MIN]);
    a.add(&frame(&[1, -1]));
    assert_eq!(a.samples, vec![i64::MAX, i64::MIN]);
}

#[test]
fn scale_is_fixed_point_product() {
    // 0.5 * 0.5 == 0.25, and -3.0 * 0.5 == -1.5, exactly.
    let mut a = frame(&[500_000, -3_000_000]);
    a.scale(500_000);
    assert_eq!(a.samples, vec![250_000, -1_500_000]);
}

#[test]
fn scale_rounds_toward_zero() {
    // -1 millionth * 0.5 is -0.5 millionths, which truncates to zero.
    let mut a = frame(&[-1, 1]);
    a.scale(500_000);
    assert_eq!(a.samples, vec![0, 0]);
}

#[test]
fn apply_cycles_one_channel_over_four() {
    // A one-channel operand scales all four channels by the same factor.
    let mut a = frame(&[1_000_000, 2_000_000, -1_000_000, 500_000]);
    a.apply(&frame(&[500_000]));
    assert_eq!(a.samples, vec![500_000, 1_000_000, -500_000, 250_000]);
}

#[test]
fn apply_cycles_shorter_operand() {
    let mut a = frame(&[1_000_000, 1_000_000, 1_000_000]);
    a.apply(&frame(&[100_000, 200_000]));
    assert_eq!(a.samples, vec![100_000, 200_000, 100_000]);
}

#[test]
fn apply_empty_operand_is_no_op() {
    let mut a = frame(&[7, 8]);
    a.apply(&PolySample::empty());
    assert_eq!(a.samples, vec![7, 8]);
}

#[test]
fn polify_two_duplicates_the_channels() {
    let mut a = frame(&[1, 2]);
    a.polify(2);
    assert_eq!(a.samples, vec![1, 2, 1, 2]);
}

#[test]
fn polify_concatenates_n_copies() {
    let mut a = frame(&[5, 6]);
    a.polify(3);
    assert_eq!(a.samples, vec![5, 6, 5, 6, 5, 6]);
    let mut b = frame(&[9]);
    b.polify(1);
    assert_eq!(b.samples, vec![9]);
}

#[test]
fn linear_map_is_exact_at_boundaries() {
    // Map [-1, 1] onto [0, 1] (in millionths).
    let mut a = frame(&[-1_000_000, 0, 1_000_000]);
    a.linear_map(-1_000_000, 1_000_000, 0, 1_000_000);
    assert_eq!(a.samples, vec![0, 500_000, 1_000_000]);
}

#[test]
fn linear_map_descending_target() {
    // Map [0, 1] onto [1, -1]: inverts the ramp.
    let mut a = frame(&[0, 1_000_000]);
    a.linear_map(0, 1_000_000, 1_000_000, -1_000_000);
    assert_eq!(a.samples, vec![1_000_000, -1_000_000]);
}

#[test]
fn empty_frame_is_distinct_from_silence() {
    let empty = PolySample::empty();
    let silent = PolySample::mono(0);
    assert!(empty.is_empty());
    assert!(!silent.is_empty());
    assert_eq!(silent.len(), 1);
    assert_eq!(silent.channel(0), 0);
}

#[test]
fn duplicate_copies_all_channels() {
    let a = frame(&[1, -2, 3]);
    let b = a.duplicate();
    assert_eq!(a.samples, b.samples);
}

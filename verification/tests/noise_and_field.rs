use worldgen::field::{filled, range_of, rescale};
use worldgen::noise::{ConfigError, Fractal, Interpolation, NoiseField};
use worldgen::scalar::Scalar;

fn s(v: f32) -> Scalar {
    Scalar::from_bits(v.to_bits())
}

fn f(v: Scalar) -> f32 {
    f32::from_bits(v.to_bits())
}

fn divide(raw: Scalar, lo: Scalar, hi: Scalar) -> Scalar {
    s((f(raw) - f(lo)) / (f(hi) - f(lo)))
}

fn field(v: &[f32]) -> Vec<Scalar> {
    v.iter().map(|x| s(*x)).collect()
}

#[test]
fn configure_accepts_a_valid_field() {
    let got = NoiseField::configure(
        7,
        Fractal::Billow,
        5,
        s(0.3),
        s(1.0),
        s(0.008),
        Interpolation::Quintic,
    );
    let want = NoiseField {
        seed: 7,
        fractal: Fractal::Billow,
        octaves: 5,
        gain: s(0.3),
        lacunarity: s(1.0),
        frequency: s(0.008),
        interpolation: Interpolation::Quintic,
    };
    assert_eq!(got, Ok(want));
}

#[test]
fn configure_refuses_non_positive_octaves() {
    for octaves in [0, -1, i32::MIN] {
        let got = NoiseField::configure(
            1,
            Fractal::Fbm,
            octaves,
            s(0.5),
            s(2.0),
            s(0.03),
            Interpolation::Linear,
        );
        assert_eq!(got, Err(ConfigError::Octaves));
    }
}

#[test]
fn configure_refuses_non_positive_frequency() {
    for frequency in [0.0f32, -0.0, -0.03, f32::NEG_INFINITY, f32::NAN] {
        let got = NoiseField::configure(
            1,
            Fractal::Fbm,
            3,
            s(0.5),
            s(2.0),
            s(frequency),
            Interpolation::Hermite,
        );
        assert_eq!(got, Err(ConfigError::Frequency));
    }
}

#[test]
fn configure_reports_octaves_before_frequency() {
    let got =
        NoiseField::configure(1, Fractal::Fbm, 0, s(0.5), s(2.0), s(0.0), Interpolation::Linear);
    assert_eq!(got, Err(ConfigError::Octaves));
}

#[test]
fn set_seed_changes_the_seed_alone() {
    let mut got = NoiseField::configure(
        1,
        Fractal::Fbm,
        4,
        s(0.4),
        s(2.5),
        s(0.03),
        Interpolation::Quintic,
    )
    .unwrap();
    let before = got;
    got.set_seed(99);
    assert_eq!(got.seed, 99);
    assert_eq!(got, NoiseField { seed: 99, ..before });
}

#[test]
fn range_of_nothing_is_nothing() {
    assert_eq!(range_of(&Vec::new()), None);
    assert_eq!(range_of(&field(&[f32::NAN])), None);
    assert_eq!(range_of(&field(&[f32::NAN, f32::NAN])), None);
}

#[test]
fn range_starts_from_the_first_sample() {
    assert_eq!(range_of(&field(&[0.25])), Some((s(0.25), s(0.25))));
    assert_eq!(range_of(&field(&[0.25, 0.5])), Some((s(0.25), s(0.5))));
    assert_eq!(range_of(&field(&[-0.25, -0.5])), Some((s(-0.5), s(-0.25))));
    assert_eq!(range_of(&field(&[3.0, 3.0, 3.0])), Some((s(3.0), s(3.0))));
}

#[test]
fn range_is_the_least_and_the_greatest_sample() {
    let samples = field(&[0.1, -0.7, 0.3, 0.9, -0.2, 0.9, -0.7]);
    assert_eq!(range_of(&samples), Some((s(-0.7), s(0.9))));
}

#[test]
fn range_passes_over_nan() {
    let samples = field(&[f32::NAN, 0.5, f32::NAN, 0.25]);
    assert_eq!(range_of(&samples), Some((s(0.25), s(0.5))));
    assert_eq!(range_of(&field(&[f32::NAN, -2.0])), Some((s(-2.0), s(-2.0))));
}

#[test]
fn range_keeps_the_first_of_equal_values() {
    assert_eq!(range_of(&field(&[-0.0, 0.0])), Some((s(-0.0), s(-0.0))));
    assert_eq!(range_of(&field(&[0.0, -0.0])), Some((s(0.0), s(0.0))));
}

#[test]
fn rescale_is_the_quotient_inside_the_range() {
    let got = rescale(s(0.25), Some((s(-0.5), s(1.0))), &divide);
    assert_eq!(got, s((0.25f32 - -0.5) / (1.0 - -0.5)));
    assert_eq!(f(got), 0.5);
}

#[test]
fn rescale_maps_the_ends_to_zero_and_one() {
    assert_eq!(rescale(s(-0.5), Some((s(-0.5), s(1.0))), &divide), s(0.0));
    assert_eq!(rescale(s(1.0), Some((s(-0.5), s(1.0))), &divide), s(1.0));
    assert_eq!(rescale(s(0.25), Some((s(0.25), s(0.75))), &divide), s(0.0));
}

#[test]
fn rescale_of_a_degenerate_field_is_the_midpoint() {
    assert_eq!(rescale(s(0.0), Some((s(0.0), s(0.0))), &divide), s(0.5));
    assert_eq!(rescale(s(3.0), Some((s(3.0), s(3.0))), &divide), s(0.5));
    assert_eq!(rescale(s(0.0), Some((s(0.0), s(-0.0))), &divide), s(0.5));
    assert_eq!(rescale(s(3.0), None, &divide), s(0.5));
    assert_eq!(rescale(s(f32::NAN), None, &divide), s(0.5));
}

#[test]
fn rescale_of_a_constant_positive_field_is_the_midpoint() {
    let samples = field(&[0.7, 0.7, 0.7, 0.7]);
    let range = range_of(&samples);
    for v in samples {
        assert_eq!(rescale(v, range, &divide), s(0.5));
    }
}

#[test]
fn rescale_of_a_positive_field_reaches_both_ends() {
    let samples = field(&[0.4, 0.2, 0.9, 0.6]);
    let range = range_of(&samples);
    let got: Vec<Scalar> = samples.iter().map(|v| rescale(*v, range, &divide)).collect();
    assert_eq!(got[1], s(0.0));
    assert_eq!(got[2], s(1.0));
    assert_eq!(got[0], s((0.4f32 - 0.2) / (0.9 - 0.2)));
    assert_eq!(got[3], s((0.6f32 - 0.2) / (0.9 - 0.2)));
}

#[test]
fn rescale_brings_overshoot_into_the_unit_interval() {
    assert_eq!(rescale(s(2.0), Some((s(-1.0), s(1.0))), &divide), s(1.0));
    assert_eq!(rescale(s(-2.0), Some((s(-1.0), s(1.0))), &divide), s(0.0));
    assert_eq!(rescale(s(f32::NAN), Some((s(-1.0), s(1.0))), &divide), s(0.5));
}

#[test]
fn rescale_does_not_hand_the_sample_back() {
    let got = rescale(s(0.5), Some((s(0.0), s(2.0))), &divide);
    assert_eq!(got, s(0.25));
}

#[test]
fn filled_repeats_the_value() {
    assert_eq!(filled(7u32, 0), Vec::<u32>::new());
    assert_eq!(filled(7u32, 3), vec![7, 7, 7]);
}

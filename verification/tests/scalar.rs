use worldgen::scalar::{Scalar, HALF_BITS, HIDDEN_BIT, INFINITY_BITS, ONE_BITS, SIGN_BIT, ZERO_BITS};

fn s(v: f32) -> Scalar {
    Scalar::from_bits(v.to_bits())
}

fn samples() -> Vec<f32> {
    vec![
        0.0,
        -0.0,
        f32::MIN_POSITIVE,
        -f32::MIN_POSITIVE,
        f32::from_bits(1),
        f32::from_bits(0x8000_0001),
        0.1,
        0.15,
        0.25,
        0.4,
        0.5,
        0.75,
        0.999_999_94,
        1.0,
        1.000_000_1,
        1.0001,
        -0.5,
        -1.0,
        3.5,
        -3.5,
        1.0e20,
        -1.0e20,
        f32::MAX,
        f32::MIN,
        f32::INFINITY,
        f32::NEG_INFINITY,
        f32::NAN,
        f32::from_bits(0xffc0_0000),
        f32::from_bits(0x7f80_0001),
    ]
}

#[test]
fn named_patterns_are_those_of_the_numbers() {
    assert_eq!(ZERO_BITS, 0.0f32.to_bits());
    assert_eq!(HALF_BITS, 0.5f32.to_bits());
    assert_eq!(ONE_BITS, 1.0f32.to_bits());
    assert_eq!(INFINITY_BITS, f32::INFINITY.to_bits());
    assert_eq!(SIGN_BIT, (-0.0f32).to_bits());
    assert_eq!(HIDDEN_BIT, 1u32 << 23);
    assert_eq!(Scalar::zero().to_bits(), 0.0f32.to_bits());
    assert_eq!(Scalar::half().to_bits(), 0.5f32.to_bits());
    assert_eq!(Scalar::one().to_bits(), 1.0f32.to_bits());
}

#[test]
fn bits_round_trip() {
    for v in samples() {
        assert_eq!(s(v).to_bits(), v.to_bits());
    }
}

#[test]
fn is_nan_agrees_with_the_hardware() {
    for v in samples() {
        assert_eq!(s(v).is_nan(), v.is_nan(), "{v}");
    }
}

#[test]
fn lt_agrees_with_the_hardware_on_every_pair() {
    for a in samples() {
        for b in samples() {
            assert_eq!(s(a).lt(s(b)), a < b, "{a} < {b}");
        }
    }
}

#[test]
fn gt_agrees_with_the_hardware_on_every_pair() {
    for a in samples() {
        for b in samples() {
            assert_eq!(s(a).gt(s(b)), a > b, "{a} > {b}");
        }
    }
}

#[test]
fn same_value_agrees_with_the_hardware_on_every_pair() {
    for a in samples() {
        for b in samples() {
            assert_eq!(s(a).same_value(s(b)), a == b, "{a} == {b}");
        }
    }
}

#[test]
fn the_two_zeros_are_the_same_value_but_not_the_same_bits() {
    assert!(s(0.0).same_value(s(-0.0)));
    assert_ne!(s(0.0), s(-0.0));
    assert!(!s(-0.0).lt(s(0.0)));
}

#[test]
fn nan_is_below_nothing_and_above_nothing() {
    let nan = s(f32::NAN);
    assert!(!nan.lt(s(1.0)));
    assert!(!nan.gt(s(1.0)));
    assert!(!s(1.0).lt(nan));
    assert!(!nan.same_value(nan));
}

#[test]
fn trunc_agrees_with_the_cast_on_chosen_values() {
    let values: Vec<f32> = vec![
        0.0,
        -0.0,
        0.25,
        0.999_999_94,
        1.0,
        1.5,
        1.999_999_9,
        2.0,
        7.75,
        255.99,
        10_000.0,
        10_001.0,
        10_001.999,
        8_388_607.5,
        8_388_608.0,
        16_777_215.0,
        16_777_216.0,
        16_777_218.0,
        2_147_483_648.0,
        4_294_967_040.0,
        4_294_967_296.0,
        1.0e10,
        1.0e20,
        f32::MAX,
        f32::INFINITY,
        -0.25,
        -1.0,
        -1.0e20,
        f32::NEG_INFINITY,
        f32::NAN,
        f32::MIN_POSITIVE,
        f32::from_bits(1),
    ];
    for v in values {
        assert_eq!(s(v).trunc_u32(), v as u32, "{v}");
    }
}

#[test]
fn trunc_agrees_with_the_cast_across_the_exponents() {
    let mut bits: u32 = 0;
    loop {
        for low in [0u32, 1, 0x2a_aaaa, 0x40_0000, 0x7f_ffff] {
            let v = f32::from_bits(bits | low);
            assert_eq!(s(v).trunc_u32(), v as u32, "{v}");
            let w = f32::from_bits(bits | low | 0x8000_0000);
            assert_eq!(s(w).trunc_u32(), w as u32, "{w}");
        }
        if bits == 0x7f80_0000 {
            break;
        }
        bits += 0x0080_0000;
    }
}

#[test]
fn trunc_exact_values() {
    assert_eq!(s(0.999).trunc_u32(), 0);
    assert_eq!(s(3.999).trunc_u32(), 3);
    assert_eq!(s(-7.0).trunc_u32(), 0);
    assert_eq!(s(f32::NAN).trunc_u32(), 0);
    assert_eq!(s(4_294_967_040.0).trunc_u32(), 4_294_967_040);
    assert_eq!(s(4_294_967_296.0).trunc_u32(), u32::MAX);
    assert_eq!(s(f32::INFINITY).trunc_u32(), u32::MAX);
}

#[test]
fn clamp_unit_keeps_what_is_inside() {
    for v in [0.0f32, 0.25, 0.5, 0.999, 1.0, f32::MIN_POSITIVE] {
        assert_eq!(s(v).clamp_unit(Scalar::half()), s(v));
    }
    assert_eq!(s(-0.0).clamp_unit(Scalar::half()), s(-0.0));
}

#[test]
fn clamp_unit_brings_overshoot_to_the_ends() {
    assert_eq!(s(1.0001).clamp_unit(Scalar::half()), s(1.0));
    assert_eq!(s(f32::INFINITY).clamp_unit(Scalar::half()), s(1.0));
    assert_eq!(s(-0.0001).clamp_unit(Scalar::half()), s(0.0));
    assert_eq!(s(f32::NEG_INFINITY).clamp_unit(Scalar::half()), s(0.0));
}

#[test]
fn clamp_unit_gives_the_fallback_for_nan() {
    assert_eq!(s(f32::NAN).clamp_unit(Scalar::half()), s(0.5));
    assert_eq!(s(f32::NAN).clamp_unit(Scalar::zero()), s(0.0));
}

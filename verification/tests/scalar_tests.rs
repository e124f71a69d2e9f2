use raytracer::scalar::Scalar;
use raytracer::scalar::INFINITY_MAGNITUDE;
use raytracer::scalar::ONE_BITS;
use raytracer::scalar::SIGN_BIT;
use raytracer::scalar::ZERO_BITS;

fn s(x: f32) -> Scalar {
    Scalar::from_bits(x.to_bits())
}

fn f(x: Scalar) -> f32 {
    f32::from_bits(x.to_bits())
}

fn samples() -> Vec<f32> {
    vec![
        0.0,
        -0.0,
        f32::MIN_POSITIVE,
        -f32::MIN_POSITIVE,
        f32::from_bits(1),
        f32::from_bits(0x8000_0001),
        f32::from_bits(0x007f_ffff),
        1e-3,
        0.5,
        0.7,
        0.999,
        1.0,
        1.0 + f32::EPSILON,
        1.5,
        2.0,
        255.99,
        -1e-3,
        -0.5,
        -1.0,
        -2.0,
        1e30,
        -1e30,
        f32::MAX,
        f32::MIN,
        f32::INFINITY,
        f32::NEG_INFINITY,
        f32::NAN,
        f32::from_bits(0xffc0_0001),
        f32::from_bits(0x7f80_0001),
    ]
}

#[test]
fn bits_round_trip() {
    for x in samples() {
        assert_eq!(s(x).to_bits(), x.to_bits());
    }
    assert_eq!(Scalar::from_bits(0x4048_f5c3).to_bits(), 0x4048_f5c3);
    assert_eq!(f(Scalar::from_bits(0x4048_f5c3)), 3.14);
}

#[test]
fn constants_are_the_patterns_they_name() {
    assert_eq!(ZERO_BITS, 0.0f32.to_bits());
    assert_eq!(ONE_BITS, 1.0f32.to_bits());
    assert_eq!(SIGN_BIT, (-0.0f32).to_bits());
    assert_eq!(INFINITY_MAGNITUDE, f32::INFINITY.to_bits());
}

#[test]
fn lt_is_the_order_of_the_numbers() {
    for a in samples() {
        for b in samples() {
            assert_eq!(s(a).lt(s(b)), a < b, "{a} < {b}");
        }
    }
}

#[test]
fn gt_is_the_order_of_the_numbers() {
    for a in samples() {
        for b in samples() {
            assert_eq!(s(a).gt(s(b)), a > b, "{a} > {b}");
        }
    }
}

#[test]
fn eq_is_the_equality_of_the_numbers() {
    for a in samples() {
        for b in samples() {
            assert_eq!(s(a) == s(b), a == b, "{a} == {b}");
        }
    }
}

#[test]
fn is_nan_tells_numbers_from_the_rest() {
    for a in samples() {
        assert_eq!(s(a).is_nan(), a.is_nan(), "{a}");
    }
}

#[test]
fn zeros_are_equal_and_neither_is_below_the_other() {
    assert!(s(0.0) == s(-0.0));
    assert!(!s(-0.0).lt(s(0.0)));
    assert!(!s(0.0).lt(s(-0.0)));
}

#[test]
fn nan_is_below_nothing_and_equals_nothing() {
    let nan = s(f32::NAN);
    assert!(!nan.lt(s(1.0)));
    assert!(!s(1.0).lt(nan));
    assert!(!nan.gt(s(1.0)));
    assert!(nan != nan);
}

#[test]
fn clamp_to_unit_keeps_what_is_in_the_interval() {
    for x in [0.0f32, 0.1, 0.3, 0.5, 0.999, 1.0] {
        assert_eq!(s(x).clamp_to_unit().to_bits(), x.to_bits());
    }
    assert_eq!(s(-0.0).clamp_to_unit().to_bits(), (-0.0f32).to_bits());
}

#[test]
fn clamp_to_unit_cuts_what_is_above_one() {
    assert_eq!(f(s(1.5).clamp_to_unit()), 1.0);
    assert_eq!(f(s(1.0 + f32::EPSILON).clamp_to_unit()), 1.0);
    assert_eq!(f(s(f32::INFINITY).clamp_to_unit()), 1.0);
    assert_eq!(f(s(1.5).clamp_to_unit()), 1.5f32.min(1.0));
}

#[test]
fn clamp_to_unit_lifts_what_is_below_zero() {
    assert_eq!(s(-0.2).clamp_to_unit().to_bits(), 0.0f32.to_bits());
    assert_eq!(s(f32::NEG_INFINITY).clamp_to_unit().to_bits(), 0.0f32.to_bits());
}

#[test]
fn clamp_to_unit_of_nan_is_one() {
    assert_eq!(f(s(f32::NAN).clamp_to_unit()), 1.0);
    assert_eq!(f(s(f32::NAN).clamp_to_unit()), f32::NAN.min(1.0));
}

#[test]
fn to_i32_is_the_cast_of_the_number() {
    for a in samples() {
        assert_eq!(s(a).to_i32(), a as i32, "{a}");
    }
    let more: Vec<f32> = vec![
        0.999_999_94,
        1.999_999_9,
        2.5,
        -2.5,
        3.99,
        127.5,
        254.999,
        255.0,
        255.989_99,
        255.99,
        256.0,
        8_388_607.5,
        8_388_608.0,
        16_777_215.0,
        16_777_216.0,
        65_536.75,
        -65_536.75,
        2_147_483_520.0,
        2_147_483_648.0,
        -2_147_483_520.0,
        -2_147_483_648.0,
        -2_147_483_904.0,
        4_294_967_296.0,
        1e10,
        -1e10,
    ];
    for a in more {
        assert_eq!(s(a).to_i32(), a as i32, "{a}");
    }
}

#[test]
fn to_i32_agrees_with_the_cast_on_every_exponent() {
    let mut exponent: u32 = 0;
    while exponent < 256 {
        for fraction in [0u32, 1, 0x40_0000, 0x55_5555, 0x7f_ffff] {
            for sign in [0u32, 0x8000_0000] {
                let bits = sign | (exponent << 23) | fraction;
                let x = f32::from_bits(bits);
                assert_eq!(Scalar::from_bits(bits).to_i32(), x as i32, "{x}");
            }
        }
        exponent += 1;
    }
}

#[test]
fn to_i32_holds_at_the_ends_of_the_range() {
    assert_eq!(s(f32::INFINITY).to_i32(), i32::MAX);
    assert_eq!(s(f32::NEG_INFINITY).to_i32(), i32::MIN);
    assert_eq!(s(f32::NAN).to_i32(), 0);
    assert_eq!(s(3e9).to_i32(), 2_147_483_647);
    assert_eq!(s(-3e9).to_i32(), -2_147_483_648);
}

#[test]
fn order_agrees_with_the_numbers_on_neighbouring_patterns() {
    let mut bits: u32 = 0;
    while bits < 0x7f80_0000 {
        let a = f32::from_bits(bits);
        let b = f32::from_bits(bits + 1);
        assert!(s(a).lt(s(b)));
        assert!(!s(b).lt(s(a)));
        assert!(s(-b).lt(s(-a)));
        assert!(s(-a).lt(s(b)));
        bits += 0x0003_1337;
    }
}

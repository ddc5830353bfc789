use scalar_quantizer::codes::saturate_to_code;
use scalar_quantizer::float_bits::{
    f64_bits_is_nan, f64_bits_key_le, f64_bits_max, f64_bits_min, widen_f16_bits, widen_f32_bits,
};

#[test]
fn widen_f32_matches_native_conversion() {
    let samples: Vec<f32> = vec![
        0.0,
        -0.0,
        1.0,
        -1.0,
        1.5,
        std::f32::consts::PI,
        f32::MAX,
        f32::MIN,
        f32::MIN_POSITIVE,          // smallest normal
        f32::from_bits(1),          // smallest subnormal
        f32::from_bits(0x0000_7FFF),// mid subnormal
        f32::from_bits(0x007F_FFFF),// largest subnormal
        f32::INFINITY,
        f32::NEG_INFINITY,
        -2.75e-40,                  // negative subnormal
        1234.5678,
    ];
    for v in samples {
        assert_eq!(
            widen_f32_bits(v.to_bits()),
            (v as f64).to_bits(),
            "widening f32 {v:?}"
        );
    }
    // NaN widens to NaN
    assert!(f64::from_bits(widen_f32_bits(f32::NAN.to_bits())).is_nan());
}

#[test]
fn widen_f16_matches_native_conversion() {
    for bits in [
        0x0000u16, 0x8000, // +-0
        0x3C00, 0xBC00, // +-1
        0x0001, 0x8001, // smallest subnormals
        0x03FF, // largest subnormal
        0x0400, // smallest normal
        0x7BFF, 0xFBFF, // largest finite
        0x7C00, 0xFC00, // +-inf
        0x3555, 0x4B80,
    ] {
        let v = half::f16::from_bits(bits);
        assert_eq!(
            widen_f16_bits(bits),
            v.to_f64().to_bits(),
            "widening f16 bits {bits:#06x}"
        );
    }
    assert!(f64::from_bits(widen_f16_bits(half::f16::NAN.to_bits())).is_nan());
}

#[test]
fn bit_ordering_matches_float_ordering() {
    let samples: Vec<f64> = vec![
        f64::NEG_INFINITY,
        f64::MIN,
        -2.0,
        -1.0e-320, // subnormal
        -0.0,
        0.0,
        5.0e-324, // smallest subnormal
        1.0,
        2.5,
        f64::MAX,
        f64::INFINITY,
    ];
    for a in &samples {
        for b in &samples {
            assert_eq!(
                f64_bits_key_le(a.to_bits(), b.to_bits()),
                a <= b,
                "ordering {a:?} vs {b:?}"
            );
        }
    }
}

#[test]
fn min_max_ignore_nan() {
    let nan = f64::NAN.to_bits();
    let one = 1.0f64.to_bits();
    let two = 2.0f64.to_bits();
    assert!(f64_bits_is_nan(nan));
    assert!(!f64_bits_is_nan(one));
    assert_eq!(f64_bits_min(one, nan), one);
    assert_eq!(f64_bits_min(nan, one), one);
    assert_eq!(f64_bits_max(two, nan), two);
    assert_eq!(f64_bits_max(nan, two), two);
    assert_eq!(f64_bits_min(one, two), one);
    assert_eq!(f64_bits_max(one, two), two);
}

#[test]
fn saturate_matches_native_cast() {
    let samples: Vec<f64> = vec![
        f64::NAN,
        f64::NEG_INFINITY,
        f64::INFINITY,
        -1.0e18,
        -1.0,
        -0.5,
        -0.0,
        0.0,
        0.4,
        0.6,
        1.0,
        1.9,
        85.0,
        170.0,
        254.9,
        255.0,
        255.4,
        255.6,
        256.0,
        1.0e18,
        5.0e-324,
        2.2e-308,
    ];
    for v in samples {
        assert_eq!(saturate_to_code(v.to_bits()), v as u8, "saturating {v:?}");
    }
}

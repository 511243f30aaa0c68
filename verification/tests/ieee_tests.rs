use ponchi::ieee::{ceil_to_u32, Ieee32, Ieee64};

#[test]
fn ceil_matches_float_ceil_cast() {
    let samples: Vec<f32> = vec![
        0.0, -0.0, 0.2, 0.5, 1.0, 1.0001, 2.5, 19.999, 20.0, 300.25, 8191.5, 16777215.0,
        16777216.0, 4294967040.0, 4294967296.0, 1.0e20, -0.5, -1.5, -3.0e9, f32::MIN_POSITIVE,
        1.0e-40, f32::INFINITY, f32::NEG_INFINITY, f32::NAN, f32::MAX, f32::EPSILON,
    ];
    for x in samples {
        assert_eq!(ceil_to_u32(x.to_bits()), x.ceil() as u32, "value {x:e}");
    }
}

#[test]
fn ceil_matches_on_a_sweep_of_patterns() {
    let mut bits: u32 = 0;
    loop {
        let x = f32::from_bits(bits);
        assert_eq!(ceil_to_u32(bits), x.ceil() as u32, "bits {bits:#x}");
        match bits.checked_add(0x0001_3579) {
            Some(b) => bits = b,
            None => break,
        }
    }
}

#[test]
fn finiteness_and_sign_classes() {
    assert!(Ieee32 { bits: 1.5f32.to_bits() }.is_finite());
    assert!(!Ieee32 { bits: f32::NAN.to_bits() }.is_finite());
    assert!(Ieee32 { bits: 1.5f32.to_bits() }.is_positive());
    assert!(!Ieee32 { bits: 0.0f32.to_bits() }.is_positive());
    assert!(!Ieee32 { bits: (-0.0f32).to_bits() }.is_positive());
    assert!(Ieee64 { bits: (-2.0f64).to_bits() }.is_negative());
    assert!(!Ieee64 { bits: (-0.0f64).to_bits() }.is_negative());
    assert!(Ieee64 { bits: 5000.0f64.to_bits() }.is_above(4096.0f64.to_bits()));
    assert!(!Ieee64 { bits: 4096.0f64.to_bits() }.is_above(4096.0f64.to_bits()));
}

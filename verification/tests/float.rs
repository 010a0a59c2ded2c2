use pieeg_local_bridge::float::{F32, F64};

fn wide(x: f64) -> F64 {
    F64 { bits: x.to_bits() }
}

fn check(bits: u64) {
    let narrow: F32 = F64 { bits }.to_f32();
    let expected = f64::from_bits(bits) as f32;
    if expected.is_nan() {
        assert!(f32::from_bits(narrow.bits).is_nan(), "{bits:x}");
        assert_eq!(narrow.bits >> 31, (bits >> 63) as u32, "{bits:x}");
    } else {
        assert_eq!(narrow.bits, expected.to_bits(), "{bits:x}");
    }
}

#[test]
fn doubles_compare_as_numbers() {
    assert!(wide(0.0) == wide(-0.0));
    assert!(wide(1.5) == wide(1.5));
    assert!(wide(1.5) != wide(-1.5));
    assert!(wide(f64::NAN) != wide(f64::NAN));
    assert!(wide(f64::INFINITY) == wide(f64::INFINITY));
    assert!(wide(f64::INFINITY) != wide(f64::NEG_INFINITY));
}

#[test]
fn exact_numbers_are_kept_in_single_precision() {
    for x in [0.0f32, -0.0, 1.0, -2.5, 0.125, f32::MAX, f32::MIN_POSITIVE, f32::INFINITY] {
        assert_eq!(wide(x as f64).to_f32().bits, x.to_bits());
    }
    assert_eq!(wide(1.0).to_f32().bits, 0x3f80_0000);
}

#[test]
fn numbers_are_rounded_to_the_nearest() {
    assert_eq!(wide(0.1).to_f32().bits, 0.1f32.to_bits());
    assert_eq!(wide(1e300).to_f32().bits, f32::INFINITY.to_bits());
    assert_eq!(wide(-1e300).to_f32().bits, f32::NEG_INFINITY.to_bits());
    assert_eq!(wide(1e-300).to_f32().bits, 0);
    assert_eq!(wide(-1e-300).to_f32().bits, 0x8000_0000);
    // Halfway between one and its neighbours: the even one is taken.
    assert_eq!(wide(1.0 + 2f64.powi(-24)).to_f32().bits, 0x3f80_0000);
    assert_eq!(wide(1.0 + 3.0 * 2f64.powi(-24)).to_f32().bits, 0x3f80_0002);
    // Half of the smallest number, and a little more.
    assert_eq!(wide(2f64.powi(-150)).to_f32().bits, 0);
    assert_eq!(wide(2f64.powi(-150) * 1.0000001).to_f32().bits, 1);
}

#[test]
fn narrowing_agrees_with_the_cast() {
    for exponent in 0u64..2048 {
        for significand in [
            0u64,
            1,
            0xf_ffff_ffff_ffff,
            0x8_0000_0000_0000,
            0x0_0000_1000_0000,
            0x0_0000_1000_0001,
            0x0_0000_0fff_ffff,
            0x0_0000_3000_0000,
            0xf_ffff_f000_0000,
            0xf_ffff_efff_ffff,
            0x5_5555_5555_5555,
        ] {
            let bits = (exponent << 52) | significand;
            check(bits);
            check(bits | (1 << 63));
        }
    }
    let mut bits: u64 = 0x9e37_79b9_7f4a_7c15;
    for _ in 0..20000 {
        bits = bits.wrapping_mul(6364136223846793005).wrapping_add(1442695040888963407);
        check(bits);
        // Exponents round the range of single precision.
        check((bits & 0x800f_ffff_ffff_ffff) | ((860 + bits % 310) << 52));
    }
}

use ai_model_service::fbits::{abs_bits, is_finite_bits, is_nan_bits, le_bits, min_bits};
use ai_model_service::model::clamp_confidence;
use ai_model_service::scaled::{bits_to_nanos, nanos_to_text, u64_to_dec};

#[test]
fn test_is_finite_bits_classification() {
    assert!(is_finite_bits((0.0f64).to_bits()));
    assert!(is_finite_bits((-12.75f64).to_bits()));
    assert!(is_finite_bits(f64::MAX.to_bits()));
    assert!(is_finite_bits((5e-324f64).to_bits()));
    assert!(!is_finite_bits(f64::INFINITY.to_bits()));
    assert!(!is_finite_bits(f64::NEG_INFINITY.to_bits()));
    assert!(!is_finite_bits(f64::NAN.to_bits()));
}

#[test]
fn test_is_nan_bits_classification() {
    assert!(is_nan_bits(f64::NAN.to_bits()));
    assert!(is_nan_bits((-f64::NAN).to_bits()));
    assert!(!is_nan_bits(f64::INFINITY.to_bits()));
    assert!(!is_nan_bits((3.5f64).to_bits()));
}

#[test]
fn test_le_bits_matches_double_order() {
    let cases = [
        (0.85f64, 1.0f64),
        (0.0, 0.0),
        (-0.0, 0.0),
        (0.0, -0.0),
        (-3.5, 2.0),
        (2.0, -3.5),
        (1.0e-300, 2.0e-300),
        (f64::MAX, f64::INFINITY),
        (-f64::INFINITY, f64::MIN),
        (5e-324, 1e-320),
        (7.25, 7.25),
        (100.0, 99.9),
    ];
    for (a, b) in cases {
        assert_eq!(le_bits(a.to_bits(), b.to_bits()), a <= b, "le_bits({}, {})", a, b);
    }
}

#[test]
fn test_abs_and_min_bits() {
    assert_eq!(abs_bits((-2.5f64).to_bits()), (2.5f64).to_bits());
    assert_eq!(abs_bits((2.5f64).to_bits()), (2.5f64).to_bits());
    let m = min_bits((0.5f64).to_bits(), (0.25f64).to_bits());
    assert_eq!(m, (0.25f64).to_bits());
}

#[test]
fn test_clamp_confidence_range() {
    let inside = (0.9f64).to_bits();
    assert_eq!(clamp_confidence(inside), inside);
    assert_eq!(clamp_confidence((0.2f64).to_bits()), (0.85f64).to_bits());
    assert_eq!(clamp_confidence((1.5f64).to_bits()), (1.0f64).to_bits());
    assert_eq!(clamp_confidence(f64::NAN.to_bits()), (0.85f64).to_bits());
    assert_eq!(clamp_confidence((0.85f64).to_bits()), (0.85f64).to_bits());
    assert_eq!(clamp_confidence((1.0f64).to_bits()), (1.0f64).to_bits());
}

#[test]
fn test_bits_to_nanos_readings() {
    assert_eq!(bits_to_nanos((1.5f64).to_bits()), 1_500_000_000);
    assert_eq!(bits_to_nanos((-1.5f64).to_bits()), -1_500_000_000);
    assert_eq!(bits_to_nanos((0.0f64).to_bits()), 0);
    assert_eq!(bits_to_nanos((-0.0f64).to_bits()), 0);
    assert_eq!(bits_to_nanos((0.001f64).to_bits()), 1_000_000);
    assert_eq!(bits_to_nanos((0.95f64).to_bits()), 949_999_999);
    assert_eq!(bits_to_nanos((1e-10f64).to_bits()), 0);
    assert_eq!(bits_to_nanos((1e300f64).to_bits()), i64::MAX);
    assert_eq!(bits_to_nanos((-1e300f64).to_bits()), -i64::MAX);
    assert_eq!(bits_to_nanos(f64::INFINITY.to_bits()), 0);
    assert_eq!(bits_to_nanos(f64::NAN.to_bits()), 0);
}

#[test]
fn test_decimal_rendering() {
    assert_eq!(u64_to_dec(0), "0");
    assert_eq!(u64_to_dec(7), "7");
    assert_eq!(u64_to_dec(12345), "12345");
    assert_eq!(u64_to_dec(u64::MAX), "18446744073709551615");
    assert_eq!(nanos_to_text(0), "0.000000000");
    assert_eq!(nanos_to_text(1_500_000_000), "1.500000000");
    assert_eq!(nanos_to_text(-1_500_000_000), "-1.500000000");
    assert_eq!(nanos_to_text(42), "0.000000042");
    assert_eq!(nanos_to_text(10_000_000_001), "10.000000001");
}

//! The bit-pattern predicates agree with `f64`'s own comparisons.

use perturbation_kernel::float64::Float64;

fn samples() -> Vec<f64> {
    vec![
        0.0,
        -0.0,
        1.0,
        -1.0,
        0.5,
        0.999_999_999_999_999_9,
        1.000_000_000_000_000_2,
        f64::MIN_POSITIVE,
        -f64::MIN_POSITIVE,
        5e-324,
        -5e-324,
        f64::MAX,
        f64::MIN,
        f64::INFINITY,
        f64::NEG_INFINITY,
        f64::NAN,
        -f64::NAN,
        f64::from_bits(0x7ff0_0000_0000_0001),
        f64::from_bits(0xfff8_0000_0000_0000),
        1e300,
        -1e-300,
        0.3,
    ]
}

#[test]
fn predicates_match_f64() {
    for x in samples() {
        let b = Float64::from_bits(x.to_bits());
        assert_eq!(b.to_bits(), x.to_bits());
        assert_eq!(b.is_nan(), x.is_nan(), "{x:e}");
        assert_eq!(b.is_finite(), x.is_finite(), "{x:e}");
        assert_eq!(b.ge_zero(), x >= 0.0, "{x:e}");
        assert_eq!(b.gt_zero(), x > 0.0, "{x:e}");
        assert_eq!(b.le_one(), x <= 1.0, "{x:e}");
        assert_eq!(b.lt_one(), x < 1.0, "{x:e}");
    }
    assert_eq!(f64::from_bits(Float64::zero().to_bits()), 0.0);
    assert_eq!(f64::from_bits(Float64::one().to_bits()), 1.0);
}

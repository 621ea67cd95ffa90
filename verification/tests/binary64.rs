use fancurve::binary64::Binary64;

fn b(x: f64) -> Binary64 {
    Binary64 { bits: x.to_bits() }
}

#[test]
fn comparisons_follow_f64() {
    let values = [
        f64::NEG_INFINITY,
        -1e300,
        -2.5,
        -0.0,
        0.0,
        1e-310,
        1.0,
        100.0,
        120.0,
        f64::INFINITY,
        f64::NAN,
    ];
    for &x in &values {
        for &y in &values {
            assert_eq!(b(x).le(b(y)), x <= y, "{x} <= {y}");
            assert_eq!(b(x).lt(b(y)), x < y, "{x} < {y}");
            assert_eq!(b(x).ieee_eq(b(y)), x == y, "{x} == {y}");
        }
    }
}

#[test]
fn zeros_are_equal_and_nan_is_unordered() {
    assert!(b(-0.0).ieee_eq(b(0.0)));
    assert!(!b(f64::NAN).ieee_eq(b(f64::NAN)));
    assert!(b(f64::NAN).is_nan());
    assert!(!b(f64::INFINITY).is_nan());
}

#[test]
fn closed_range() {
    assert!(b(0.0).in_closed_range(b(0.0), b(100.0)));
    assert!(b(100.0).in_closed_range(b(0.0), b(100.0)));
    assert!(b(-0.0).in_closed_range(b(0.0), b(100.0)));
    assert!(!b(100.0001).in_closed_range(b(0.0), b(100.0)));
    assert!(!b(-0.5).in_closed_range(b(0.0), b(100.0)));
    assert!(!b(f64::NAN).in_closed_range(b(0.0), b(100.0)));
}

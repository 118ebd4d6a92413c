use usage_widget::double::{Double, EIGHTY_FIVE, HUNDREDTH, ONE_AND_A_HALF, SIXTY};

fn d(x: f64) -> Double {
    Double { bits: x.to_bits() }
}

fn samples() -> Vec<f64> {
    let mut list = vec![
        0.0,
        f64::from_bits(1),
        1e-310,
        f64::MIN_POSITIVE,
        0.01,
        0.5,
        1.0,
        1.5,
        59.999999999999993,
        60.0,
        84.99999999999999,
        85.0,
        99.4,
        100.0,
        1e300,
        f64::MAX,
        f64::INFINITY,
    ];
    for x in list.clone() {
        list.push(-x);
    }
    list.push(f64::NAN);
    list.push(-f64::NAN);
    list
}

#[test]
fn order_is_that_of_the_numbers() {
    for x in samples() {
        for y in samples() {
            assert_eq!(d(x).less_than(d(y)), x < y, "{x} {y}");
        }
    }
}

#[test]
fn positive_numbers() {
    for x in samples() {
        assert_eq!(d(x).is_positive(), x > 0.0, "{x}");
    }
}

#[test]
fn maximum_of_two() {
    for x in samples() {
        for y in samples() {
            let m = f64::from_bits(d(x).max(d(y)).bits);
            let expected = x.max(y);
            assert!(m == expected || (m.is_nan() && expected.is_nan()), "{x} {y}");
        }
    }
}

#[test]
fn threshold_constants() {
    assert_eq!(f64::from_bits(SIXTY), 60.0);
    assert_eq!(f64::from_bits(EIGHTY_FIVE), 85.0);
    assert_eq!(f64::from_bits(ONE_AND_A_HALF), 1.5);
    assert_eq!(f64::from_bits(HUNDREDTH), f64::from(0.01f32));
}

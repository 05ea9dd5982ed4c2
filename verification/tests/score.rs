use retrieval_fanout::score::{Score, INFINITY_BITS, SIGN_BIT};

fn score(value: f64) -> Score {
    Score::from_bits(value.to_bits())
}

fn samples() -> Vec<f64> {
    vec![
        f64::NEG_INFINITY,
        f64::MIN,
        -1e300,
        -2.5,
        -1.0,
        -f64::MIN_POSITIVE,
        -5e-324,
        -0.0,
        0.0,
        5e-324,
        f64::MIN_POSITIVE,
        0.1,
        0.5,
        0.8f32 as f64,
        0.95f32 as f64,
        1.0,
        2.5,
        1e300,
        f64::MAX,
        f64::INFINITY,
    ]
}

#[test]
fn rank_orders_as_the_numbers_do() {
    let values = samples();
    for a in &values {
        for b in &values {
            let (ra, rb) = (score(*a).rank(), score(*b).rank());
            assert_eq!(a < b, ra < rb, "{} and {}", a, b);
            assert_eq!(a == b, ra == rb, "{} and {}", a, b);
            assert_eq!(a > b, ra > rb, "{} and {}", a, b);
        }
    }
}

#[test]
fn rank_has_exact_values() {
    assert_eq!(score(0.0).rank(), 0);
    assert_eq!(score(-0.0).rank(), 0);
    assert_eq!(score(1.0).rank(), 0x3FF0_0000_0000_0000);
    assert_eq!(score(-1.0).rank(), -0x3FF0_0000_0000_0000);
    assert_eq!(score(5e-324).rank(), 1);
    assert_eq!(score(-5e-324).rank(), -1);
    assert_eq!(score(f64::INFINITY).rank(), 0x7FF0_0000_0000_0000);
    assert_eq!(score(f64::NEG_INFINITY).rank(), -0x7FF0_0000_0000_0000);
    assert_eq!(Score::from_bits(u64::MAX).rank(), -i64::MAX);
    assert_eq!(Score::from_bits(SIGN_BIT - 1).rank(), i64::MAX);
}

#[test]
fn is_nan_tells_numbers_from_the_rest() {
    for value in samples() {
        assert!(!score(value).is_nan(), "{}", value);
    }
    assert!(score(f64::NAN).is_nan());
    assert!(score(-f64::NAN).is_nan());
    assert!(Score::from_bits(INFINITY_BITS + 1).is_nan());
    assert!(Score::from_bits(SIGN_BIT + INFINITY_BITS + 1).is_nan());
    assert!(Score::from_bits(u64::MAX).is_nan());
    assert!(!Score::from_bits(INFINITY_BITS).is_nan());
    assert!(!Score::from_bits(SIGN_BIT + INFINITY_BITS).is_nan());
    assert!(!Score::from_bits(SIGN_BIT).is_nan());
}

#[test]
fn bits_round_trip() {
    for value in samples() {
        assert_eq!(score(value).to_bits(), value.to_bits());
        assert_eq!(score(value).bits, value.to_bits());
    }
}

use probdist::double::Double;
use probdist::double::{
    FIVE, FOUR, HALF, HUNDREDTH, INFINITY, LARGEST, LOWEST, ONE, TENTH, THOUSAND, THREE, TWO,
    TWO_AND_A_HALF, ZERO,
};

fn d(x: f64) -> Double {
    Double::from_bits(x.to_bits())
}

fn samples() -> Vec<f64> {
    vec![
        0.0,
        -0.0,
        5e-324,
        -5e-324,
        2.2250738585072014e-308,
        1e-300,
        0.001,
        0.1,
        0.5,
        0.999,
        1.0,
        1.0000000000000002,
        1.5,
        2.0,
        2.5,
        3.0,
        4.0,
        1000.0,
        4503599627370496.0,
        9007199254740992.0,
        9007199254740994.0,
        18446744073709549568.0,
        18446744073709551616.0,
        1e300,
        f64::MAX,
        f64::MIN,
        -1.0,
        -2.5,
        -1000.0,
        f64::INFINITY,
        f64::NEG_INFINITY,
        f64::NAN,
        -f64::NAN,
    ]
}

#[test]
fn named_bit_patterns_are_the_numbers_they_name() {
    assert_eq!(ZERO, 0.0_f64.to_bits());
    assert_eq!(HALF, 0.5_f64.to_bits());
    assert_eq!(ONE, 1.0_f64.to_bits());
    assert_eq!(TWO, 2.0_f64.to_bits());
    assert_eq!(TWO_AND_A_HALF, 2.5_f64.to_bits());
    assert_eq!(THREE, 3.0_f64.to_bits());
    assert_eq!(FOUR, 4.0_f64.to_bits());
    assert_eq!(FIVE, 5.0_f64.to_bits());
    assert_eq!(THOUSAND, 1000.0_f64.to_bits());
    assert_eq!(TENTH, 0.1_f64.to_bits());
    assert_eq!(HUNDREDTH, 0.01_f64.to_bits());
    assert_eq!(LARGEST, f64::MAX.to_bits());
    assert_eq!(LOWEST, f64::MIN.to_bits());
    assert_eq!(INFINITY, f64::INFINITY.to_bits());
}

#[test]
fn bits_round_trip() {
    for x in samples() {
        assert_eq!(d(x).to_bits(), x.to_bits());
        assert_eq!(Double::from_bits(x.to_bits()), d(x));
    }
}

#[test]
fn classification_agrees_with_the_machine() {
    for x in samples() {
        let v = d(x);
        assert_eq!(v.is_nan(), x.is_nan(), "is_nan of {x}");
        assert_eq!(v.is_infinite(), x.is_infinite(), "is_infinite of {x}");
        assert_eq!(v.is_finite(), x.is_finite(), "is_finite of {x}");
        assert_eq!(v.is_sign_negative(), x.is_sign_negative(), "sign of {x}");
        assert_eq!(v.is_positive(), x > 0.0, "is_positive of {x}");
        assert_eq!(v.is_non_negative(), x >= 0.0, "is_non_negative of {x}");
    }
}

#[test]
fn comparisons_agree_with_the_machine() {
    for x in samples() {
        for y in samples() {
            assert_eq!(d(x).lt(&d(y)), x < y, "{x} < {y}");
            assert_eq!(d(x).le(&d(y)), x <= y, "{x} <= {y}");
            assert_eq!(d(x).same_number(&d(y)), x == y, "{x} == {y}");
        }
    }
}

#[test]
fn minus_zero_is_not_below_zero() {
    assert!(!d(-0.0).lt(&d(0.0)));
    assert!(d(-0.0).le(&d(0.0)));
    assert!(d(0.0).le(&d(-0.0)));
    assert!(d(-0.0).same_number(&d(0.0)));
    assert!(d(-0.0) != d(0.0));
}

#[test]
fn nothing_compares_with_not_a_number() {
    let nan = d(f64::NAN);
    assert!(!nan.lt(&d(1.0)));
    assert!(!d(1.0).lt(&nan));
    assert!(!nan.le(&nan));
    assert!(!nan.same_number(&nan));
    assert!(!nan.is_positive());
    assert!(!nan.is_non_negative());
}

#[test]
fn whole_numbers_convert_exactly() {
    assert_eq!(d(0.0).to_u64(), Some(0));
    assert_eq!(d(-0.0).to_u64(), Some(0));
    assert_eq!(d(1.0).to_u64(), Some(1));
    assert_eq!(d(5.0).to_u64(), Some(5));
    assert_eq!(d(500.0).to_u64(), Some(500));
    assert_eq!(d(4503599627370496.0).to_u64(), Some(1 << 52));
    assert_eq!(d(9007199254740992.0).to_u64(), Some(1 << 53));
    assert_eq!(d(9007199254740994.0).to_u64(), Some((1 << 53) + 2));
    assert_eq!(d(9223372036854775808.0).to_u64(), Some(1 << 63));
    assert_eq!(d(18446744073709549568.0).to_u64(), Some(u64::MAX - 2047));
}

#[test]
fn what_is_no_whole_number_does_not_convert() {
    assert_eq!(d(0.5).to_u64(), None);
    assert_eq!(d(1.5).to_u64(), None);
    assert_eq!(d(4.999999999999999).to_u64(), None);
    assert_eq!(d(5e-324).to_u64(), None);
    assert_eq!(d(-1.0).to_u64(), None);
    assert_eq!(d(-5e-324).to_u64(), None);
    assert_eq!(d(18446744073709551616.0).to_u64(), None);
    assert_eq!(d(1e300).to_u64(), None);
    assert_eq!(d(f64::INFINITY).to_u64(), None);
    assert_eq!(d(f64::NEG_INFINITY).to_u64(), None);
    assert_eq!(d(f64::NAN).to_u64(), None);
}

#[test]
fn to_u64_agrees_with_the_machine_on_whole_numbers() {
    for x in samples() {
        let whole = x.is_finite() && x >= 0.0 && x.fract() == 0.0 && x < 18446744073709551616.0;
        match d(x).to_u64() {
            Some(n) => {
                assert!(whole, "{x} is no whole number");
                assert_eq!(n, x as u64);
                assert_eq!(n as f64, x);
            }
            None => assert!(!whole, "{x} is a whole number"),
        }
    }
}

fn integers() -> Vec<u64> {
    let mut all: Vec<u64> = vec![0, 1, 2, 3, 5, 50, 100, 500, 1000, 4095, 4096, 4097];
    for shift in 50..64 {
        let base: u64 = 1 << shift;
        for delta in 0..6 {
            all.push(base + delta);
            all.push(base - delta);
            all.push(base + (base >> 53) + delta);
            all.push(base + (base >> 52) + delta);
            all.push(base + (base >> 54) + delta);
        }
    }
    for delta in 0..5000 {
        all.push(u64::MAX - delta);
        all.push((1 << 53) + delta);
        all.push((1 << 54) + delta);
        all.push((1 << 63) + delta);
    }
    all
}

#[test]
fn from_u64_rounds_as_the_machine_does() {
    for n in integers() {
        assert_eq!(Double::from_u64(n).to_bits(), (n as f64).to_bits(), "from {n}");
    }
}

#[test]
fn from_u64_rounds_ties_to_even() {
    let two_53: u64 = 1 << 53;
    assert_eq!(Double::from_u64(two_53 + 1), d(9007199254740992.0));
    assert_eq!(Double::from_u64(two_53 + 2), d(9007199254740994.0));
    assert_eq!(Double::from_u64(two_53 + 3), d(9007199254740996.0));
    assert_eq!(Double::from_u64(u64::MAX), d(18446744073709551616.0));
}

#[test]
fn from_i64_rounds_as_the_machine_does() {
    let mut all: Vec<i64> = vec![0, 1, -1, 5, -5, i64::MAX, i64::MIN, i64::MIN + 1];
    for n in integers() {
        let i = n as i64;
        all.push(i);
        all.push(i.wrapping_neg());
    }
    for i in all {
        assert_eq!(Double::from_i64(i).to_bits(), (i as f64).to_bits(), "from {i}");
    }
}

#[test]
fn from_u64_and_to_u64_are_inverse_below_two_to_the_53() {
    for n in [0_u64, 1, 5, 500, (1 << 53) - 1, 1 << 53] {
        assert_eq!(Double::from_u64(n).to_u64(), Some(n));
    }
}

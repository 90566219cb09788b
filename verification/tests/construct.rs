use probdist::distr::cont_distr::DistrTypes as Cont;
use probdist::distr::disc_distr::DistrTypes as Disc;
use probdist::double::Double;
use probdist::family::{ConstructionError, Distribution, Family};
use probdist::rules::{first_violation, Rule};
use statrs::distribution as st;

fn d(x: f64) -> Double {
    Double::from_bits(x.to_bits())
}

fn values(xs: &[f64]) -> Vec<Double> {
    xs.iter().map(|x| d(*x)).collect()
}

fn make(family: Family, xs: &[f64]) -> Result<Distribution, ConstructionError> {
    family.construct(&values(xs))
}

fn refusal(family: Family, xs: &[f64]) -> (String, usize, Rule) {
    match make(family, xs) {
        Err(ConstructionError::InvalidParameter { name, position, reason }) => {
            (name, position, reason)
        }
        other => panic!("expected an invalid parameter, got {other:?}"),
    }
}

fn families() -> Vec<Family> {
    let mut all: Vec<Family> = Vec::new();
    for t in Cont::all() {
        all.push(Family::Continuous(t));
    }
    for t in Disc::all() {
        all.push(Family::Discrete(t));
    }
    all
}

fn grid() -> Vec<f64> {
    vec![
        f64::NAN,
        f64::NEG_INFINITY,
        -3.0,
        -0.0,
        0.0,
        1e-310,
        0.001,
        0.5,
        1.0,
        1.0000000000000002,
        2.0,
        2.5,
        7.0,
        1e300,
        f64::INFINITY,
    ]
}

fn whole(x: f64) -> Option<u64> {
    if x.is_finite() && x >= 0.0 && x.fract() == 0.0 && x < 18446744073709551616.0 {
        Some(x as u64)
    } else {
        None
    }
}

fn outside_accepts(family: Family, v: &[f64]) -> bool {
    match family {
        Family::Continuous(t) => match t {
            Cont::Normal => st::Normal::new(v[0], v[1]).is_ok(),
            Cont::Gamma => st::Gamma::new(v[0], v[1]).is_ok(),
            Cont::Beta => st::Beta::new(v[0], v[1]).is_ok(),
            Cont::Cauchy => st::Cauchy::new(v[0], v[1]).is_ok(),
            Cont::ChiSquared => st::ChiSquared::new(v[0]).is_ok(),
            Cont::Exp => st::Exp::new(v[0]).is_ok(),
            Cont::FisherSnedecor => st::FisherSnedecor::new(v[0], v[1]).is_ok(),
            Cont::Gumbel => st::Gumbel::new(v[0], v[1]).is_ok(),
            Cont::InverseGamma => st::InverseGamma::new(v[0], v[1]).is_ok(),
            Cont::Laplace => st::Laplace::new(v[0], v[1]).is_ok(),
            Cont::LogNormal => st::LogNormal::new(v[0], v[1]).is_ok(),
            Cont::Pareto => st::Pareto::new(v[0], v[1]).is_ok(),
            Cont::StudentsT => st::StudentsT::new(v[0], v[1], v[2]).is_ok(),
            Cont::Triangular => st::Triangular::new(v[0], v[1], v[2]).is_ok(),
            Cont::Uniform => st::Uniform::new(v[0], v[1]).is_ok(),
            Cont::Weibull => st::Weibull::new(v[0], v[1]).is_ok(),
        },
        Family::Discrete(t) => match t {
            Disc::Poisson => st::Poisson::new(v[0]).is_ok(),
            Disc::Binomial => match whole(v[1]) {
                Some(n) => st::Binomial::new(v[0], n).is_ok(),
                None => false,
            },
            Disc::Bernoulli => st::Bernoulli::new(v[0]).is_ok(),
            Disc::Geometric => st::Geometric::new(v[0]).is_ok(),
            Disc::Hypergeometric => match (whole(v[0]), whole(v[1]), whole(v[2])) {
                (Some(a), Some(b), Some(c)) => st::Hypergeometric::new(a, b, c).is_ok(),
                _ => false,
            },
            Disc::NegativeBinomial => st::NegativeBinomial::new(v[0], v[1]).is_ok(),
        },
    }
}

#[test]
fn every_family_accepts_its_defaults() {
    for family in families() {
        let initial = family.defaults().default_values();
        let made = family.construct(&initial);
        match made {
            Ok(dist) => {
                assert_eq!(dist.family(), family);
                assert_eq!(dist.values(), &initial);
            }
            Err(e) => panic!("{} refuses its defaults: {e:?}", family.to_string()),
        }
        let dist = family.default_distribution();
        assert_eq!(dist.family(), family);
        assert_eq!(dist.values(), &initial);
    }
}

#[test]
fn the_outside_constructors_accept_the_defaults_too() {
    for family in families() {
        let initial: Vec<f64> =
            family.defaults().default_values().iter().map(|v| f64::from_bits(v.bits)).collect();
        assert!(outside_accepts(family, &initial), "{}", family.to_string());
    }
}

#[test]
fn normal_with_negative_deviation_is_refused() {
    let (name, position, reason) = refusal(Family::Continuous(Cont::Normal), &[0.0, -1.0]);
    assert_eq!(name, "Std. dev.");
    assert_eq!(position, 1);
    assert_eq!(reason, Rule::Positive(1));
}

#[test]
fn uniform_needs_min_strictly_below_max() {
    let (name, position, reason) = refusal(Family::Continuous(Cont::Uniform), &[5.0, 5.0]);
    assert_eq!(name, "Max");
    assert_eq!(position, 1);
    assert_eq!(reason, Rule::Below { low: 0, high: 1 });
    assert!(make(Family::Continuous(Cont::Uniform), &[5.0, 5.000000000000001]).is_ok());
    assert!(make(Family::Continuous(Cont::Uniform), &[6.0, 5.0]).is_err());
}

#[test]
fn a_list_of_the_wrong_length_is_an_arity_mismatch() {
    assert_eq!(
        make(Family::Continuous(Cont::Normal), &[0.0]).err(),
        Some(ConstructionError::ArityMismatch { expected: 2, found: 1 })
    );
    assert_eq!(
        make(Family::Continuous(Cont::Normal), &[0.0, 1.0, 2.0]).err(),
        Some(ConstructionError::ArityMismatch { expected: 2, found: 3 })
    );
    assert_eq!(
        make(Family::Continuous(Cont::Exp), &[]).err(),
        Some(ConstructionError::ArityMismatch { expected: 1, found: 0 })
    );
    assert_eq!(
        make(Family::Discrete(Disc::Hypergeometric), &[1.0, 1.0]).err(),
        Some(ConstructionError::ArityMismatch { expected: 3, found: 2 })
    );
    for family in families() {
        let arity = family.arity();
        for len in 0..5 {
            let made = family.construct(&vec![d(0.5); len]);
            let mismatch = matches!(made, Err(ConstructionError::ArityMismatch { .. }));
            assert_eq!(mismatch, len != arity);
        }
    }
}

#[test]
fn the_first_broken_rule_is_reported() {
    let gamma = Family::Continuous(Cont::Gamma);
    assert_eq!(refusal(gamma, &[-1.0, -1.0]), ("Shape".to_owned(), 0, Rule::Positive(0)));
    assert_eq!(refusal(gamma, &[1.0, 0.0]), ("Rate".to_owned(), 1, Rule::Positive(1)));
    assert_eq!(
        refusal(gamma, &[f64::INFINITY, f64::INFINITY]),
        ("Rate".to_owned(), 1, Rule::NotBothInfinite { first: 0, second: 1 })
    );
    assert!(make(gamma, &[f64::INFINITY, 1.0]).is_ok());
    let triangular = Family::Continuous(Cont::Triangular);
    assert_eq!(
        refusal(triangular, &[0.0, 5.0, 6.0]),
        ("Mode".to_owned(), 2, Rule::Within { value: 2, low: 0, high: 1 })
    );
    assert_eq!(
        refusal(triangular, &[2.0, 2.0, 2.0]),
        ("Max".to_owned(), 1, Rule::Below { low: 0, high: 1 })
    );
    assert_eq!(
        refusal(triangular, &[0.0, f64::INFINITY, 1.0]),
        ("Max".to_owned(), 1, Rule::Finite(1))
    );
    assert!(make(triangular, &[0.0, 5.0, 0.0]).is_ok());
    assert!(make(triangular, &[0.0, 5.0, 5.0]).is_ok());
}

#[test]
fn each_kind_of_rule_refuses_what_breaks_it() {
    assert_eq!(
        refusal(Family::Continuous(Cont::Cauchy), &[f64::NAN, 1.0]),
        ("Location".to_owned(), 0, Rule::Number(0))
    );
    assert_eq!(
        refusal(Family::Continuous(Cont::Beta), &[f64::INFINITY, 1.0]),
        ("Shape A".to_owned(), 0, Rule::Finite(0))
    );
    assert_eq!(
        refusal(Family::Continuous(Cont::Beta), &[1.0, 0.0]),
        ("Shape B".to_owned(), 1, Rule::Positive(1))
    );
    assert_eq!(
        refusal(Family::Discrete(Disc::NegativeBinomial), &[-0.5, 0.5]),
        ("r".to_owned(), 0, Rule::NonNegative(0))
    );
    assert_eq!(
        refusal(Family::Discrete(Disc::NegativeBinomial), &[0.0, 1.5]),
        ("p".to_owned(), 1, Rule::Probability(1))
    );
    assert_eq!(
        refusal(Family::Discrete(Disc::Binomial), &[0.5, 2.5]),
        ("n".to_owned(), 1, Rule::Whole(1))
    );
    assert_eq!(
        refusal(Family::Discrete(Disc::Binomial), &[0.5, -1.0]),
        ("n".to_owned(), 1, Rule::Whole(1))
    );
    assert_eq!(
        refusal(Family::Discrete(Disc::Hypergeometric), &[10.0, 11.0, 5.0]),
        ("Successes".to_owned(), 1, Rule::AtMost { value: 1, limit: 0 })
    );
    assert_eq!(
        refusal(Family::Discrete(Disc::Hypergeometric), &[10.0, 10.0, 11.0]),
        ("Draws".to_owned(), 2, Rule::AtMost { value: 2, limit: 0 })
    );
    assert_eq!(
        refusal(Family::Discrete(Disc::Geometric), &[0.0]),
        ("p".to_owned(), 0, Rule::Positive(0))
    );
    assert_eq!(
        refusal(Family::Discrete(Disc::Geometric), &[1.5]),
        ("p".to_owned(), 0, Rule::Probability(0))
    );
    assert_eq!(
        refusal(Family::Discrete(Disc::Poisson), &[0.0]),
        ("Lambda".to_owned(), 0, Rule::Positive(0))
    );
}

#[test]
fn the_edges_of_the_constraints_are_where_they_should_be() {
    assert!(make(Family::Discrete(Disc::Bernoulli), &[0.0]).is_ok());
    assert!(make(Family::Discrete(Disc::Bernoulli), &[-0.0]).is_ok());
    assert!(make(Family::Discrete(Disc::Bernoulli), &[1.0]).is_ok());
    assert!(make(Family::Discrete(Disc::Bernoulli), &[1.0000000000000002]).is_err());
    assert!(make(Family::Discrete(Disc::Bernoulli), &[-5e-324]).is_err());
    assert!(make(Family::Discrete(Disc::Geometric), &[1.0]).is_ok());
    assert!(make(Family::Discrete(Disc::Geometric), &[5e-324]).is_ok());
    assert!(make(Family::Discrete(Disc::NegativeBinomial), &[0.0, 0.0]).is_ok());
    assert!(make(Family::Discrete(Disc::Binomial), &[0.5, 0.0]).is_ok());
    assert!(make(Family::Discrete(Disc::Hypergeometric), &[0.0, 0.0, 0.0]).is_ok());
    assert!(make(Family::Discrete(Disc::Hypergeometric), &[7.0, 7.0, 7.0]).is_ok());
    assert!(make(Family::Continuous(Cont::Exp), &[f64::INFINITY]).is_ok());
    assert!(make(Family::Continuous(Cont::Exp), &[5e-324]).is_ok());
    assert!(make(Family::Continuous(Cont::Normal), &[f64::INFINITY, 1.0]).is_ok());
    assert!(make(Family::Continuous(Cont::ChiSquared), &[5e-324]).is_ok());
    assert!(make(Family::Continuous(Cont::ChiSquared), &[0.0]).is_err());
}

#[test]
fn a_distribution_keeps_its_family_and_values() {
    let family = Family::Continuous(Cont::StudentsT);
    let given = values(&[-2.0, 0.25, 7.0]);
    let dist = family.construct(&given).expect("the values are fine");
    assert_eq!(dist.family(), family);
    assert_eq!(dist.values(), &given);
}

#[test]
fn acceptance_agrees_with_the_outside_constructors() {
    let grid = grid();
    for family in families() {
        let arity = family.arity();
        let mut index: Vec<usize> = vec![0; arity];
        loop {
            let v: Vec<f64> = index.iter().map(|i| grid[*i]).collect();
            let ours = family.construct(&values(&v)).is_ok();
            assert_eq!(ours, outside_accepts(family, &v), "{} with {v:?}", family.to_string());
            let mut k = 0;
            while k < arity {
                index[k] += 1;
                if index[k] < grid.len() {
                    break;
                }
                index[k] = 0;
                k += 1;
            }
            if k == arity {
                break;
            }
        }
    }
}

#[test]
fn chi_squared_takes_the_smallest_positive_number() {
    let family = Family::Continuous(Cont::ChiSquared);
    assert!(make(family, &[5e-324]).is_ok());
    assert!(st::ChiSquared::new(5e-324).is_err());
    assert!(make(family, &[1e-323]).is_ok());
    assert!(st::ChiSquared::new(1e-323).is_ok());
}

#[test]
fn rules_say_whom_they_blame() {
    assert_eq!(Rule::Number(2).subject(), 2);
    assert_eq!(Rule::Finite(1).subject(), 1);
    assert_eq!(Rule::Positive(0).subject(), 0);
    assert_eq!(Rule::NonNegative(1).subject(), 1);
    assert_eq!(Rule::Probability(2).subject(), 2);
    assert_eq!(Rule::Whole(1).subject(), 1);
    assert_eq!(Rule::NotBothInfinite { first: 0, second: 1 }.subject(), 1);
    assert_eq!(Rule::Below { low: 0, high: 1 }.subject(), 1);
    assert_eq!(Rule::AtMost { value: 2, limit: 0 }.subject(), 2);
    assert_eq!(Rule::Within { value: 2, low: 0, high: 1 }.subject(), 2);
}

#[test]
fn rules_check_single_values() {
    let v = values(&[f64::NAN, f64::INFINITY, -1.0, 0.0, 0.5, 3.0]);
    assert!(!Rule::Number(0).check(&v));
    assert!(Rule::Number(1).check(&v));
    assert!(!Rule::Finite(1).check(&v));
    assert!(Rule::Finite(2).check(&v));
    assert!(Rule::Positive(1).check(&v));
    assert!(!Rule::Positive(3).check(&v));
    assert!(Rule::NonNegative(3).check(&v));
    assert!(!Rule::NonNegative(2).check(&v));
    assert!(Rule::Probability(4).check(&v));
    assert!(!Rule::Probability(5).check(&v));
    assert!(Rule::Whole(5).check(&v));
    assert!(!Rule::Whole(4).check(&v));
    assert!(Rule::NotBothInfinite { first: 1, second: 5 }.check(&v));
    assert!(!Rule::NotBothInfinite { first: 1, second: 1 }.check(&v));
    assert!(Rule::Below { low: 4, high: 5 }.check(&v));
    assert!(!Rule::Below { low: 5, high: 5 }.check(&v));
    assert!(!Rule::Below { low: 0, high: 5 }.check(&v));
    assert!(Rule::AtMost { value: 5, limit: 5 }.check(&v));
    assert!(!Rule::AtMost { value: 5, limit: 4 }.check(&v));
    assert!(Rule::Within { value: 4, low: 3, high: 5 }.check(&v));
    assert!(!Rule::Within { value: 5, low: 3, high: 4 }.check(&v));
}

#[test]
fn first_violation_finds_the_first_only() {
    let v = values(&[0.5, -1.0]);
    let rules = vec![Rule::Number(0), Rule::Positive(1), Rule::Probability(1)];
    assert_eq!(first_violation(&rules, &v), Some(1));
    let rules = vec![Rule::Number(0), Rule::Number(1)];
    assert_eq!(first_violation(&rules, &v), None);
    assert_eq!(first_violation(&Vec::new(), &v), None);
}

#[test]
fn the_rules_of_a_family_come_in_checking_order() {
    assert_eq!(
        Family::Continuous(Cont::Triangular).rules(),
        vec![
            Rule::Finite(0),
            Rule::Finite(1),
            Rule::Finite(2),
            Rule::Within { value: 2, low: 0, high: 1 },
            Rule::Below { low: 0, high: 1 },
        ]
    );
    assert_eq!(
        Family::Discrete(Disc::Binomial).rules(),
        vec![Rule::Probability(0), Rule::Whole(1)]
    );
}

use probdist::distr::cont_distr;
use probdist::distr::disc_distr;
use probdist::distr::{MixedParam, BARELY_POSITIVE};
use probdist::double::Double;
use probdist::family::Family;

fn f(d: Double) -> f64 {
    f64::from_bits(d.to_bits())
}

fn families() -> Vec<Family> {
    Family::all()
}

fn expected_arity(label: &str) -> usize {
    match label {
        "ChiSquared" | "Exp" | "Poisson" | "Bernoulli" | "Geometric" => 1,
        "StudentsT" | "Triangular" | "Hypergeometric" => 3,
        _ => 2,
    }
}

#[test]
fn there_are_sixteen_continuous_and_six_discrete_families() {
    assert_eq!(cont_distr::DistrTypes::all().len(), 16);
    assert_eq!(disc_distr::DistrTypes::all().len(), 6);
    assert_eq!(families().len(), 22);
}

#[test]
fn every_family_is_listed_once() {
    let all = families();
    for (i, a) in all.iter().enumerate() {
        for (j, b) in all.iter().enumerate() {
            assert_eq!(a == b, i == j);
        }
    }
}

#[test]
fn labels_are_the_names_of_the_families() {
    let labels: Vec<String> = cont_distr::DistrTypes::all().iter().map(|t| t.to_string()).collect();
    assert_eq!(
        labels,
        vec![
            "Normal",
            "Gamma",
            "Beta",
            "Cauchy",
            "ChiSquared",
            "Exp",
            "FisherSnedecor",
            "Gumbel",
            "InverseGamma",
            "Laplace",
            "LogNormal",
            "Pareto",
            "StudentsT",
            "Triangular",
            "Uniform",
            "Weibull"
        ]
    );
    let labels: Vec<String> = disc_distr::DistrTypes::all().iter().map(|t| t.to_string()).collect();
    assert_eq!(
        labels,
        vec!["Poisson", "Binomial", "Bernoulli", "Geometric", "Hypergeometric", "NegativeBinomial"]
    );
    assert_eq!(Family::Continuous(cont_distr::DistrTypes::Exp).to_string(), "Exp");
    assert_eq!(Family::Discrete(disc_distr::DistrTypes::Poisson).to_string(), "Poisson");
}

#[test]
fn every_family_has_as_many_parameters_as_its_arity() {
    for family in families() {
        let descriptor = family.defaults();
        assert_eq!(descriptor.family, family);
        assert_eq!(descriptor.parameters.len(), family.arity(), "{}", family.to_string());
        assert_eq!(family.arity(), expected_arity(&family.to_string()), "{}", family.to_string());
        assert!((1..=3).contains(&descriptor.parameters.len()));
    }
}

#[test]
fn every_default_lies_in_its_range_and_every_step_is_positive() {
    for family in families() {
        for p in family.defaults().parameters {
            match p {
                MixedParam::Float { param } => {
                    let (lo, hi) = (f(*param.range.start()), f(*param.range.end()));
                    let def = f(param.default);
                    assert!(lo <= def && def <= hi, "{} of {}", param.name, family.to_string());
                    assert!(f(param.speed) > 0.0);
                }
                MixedParam::Unsigned { param } => {
                    assert!(param.range.contains(&param.default));
                    assert!(f(param.speed) > 0.0);
                }
                MixedParam::_Signed { param } => {
                    assert!(param.range.contains(&param.default));
                    assert!(f(param.speed) > 0.0);
                }
            }
        }
    }
}

#[test]
fn normal_parameters_are_mean_and_standard_deviation() {
    let params = cont_distr::DistrTypes::Normal.get_defaults();
    assert_eq!(params.len(), 2);
    match &params[0] {
        MixedParam::Float { param } => {
            assert_eq!(param.name, "Mean");
            assert_eq!(f(param.default), 0.0);
            assert_eq!(f(*param.range.start()), f64::MIN);
            assert_eq!(f(*param.range.end()), f64::MAX);
            assert_eq!(param.desc, None);
            assert_eq!(f(param.speed), 1.0);
        }
        _ => panic!("the mean is a floating parameter"),
    }
    match &params[1] {
        MixedParam::Float { param } => {
            assert_eq!(param.name, "Std. dev.");
            assert_eq!(f(param.default), 1.0);
            assert_eq!(f(*param.range.start()), 0.001);
            assert_eq!(f(*param.range.end()), f64::MAX);
            assert_eq!(param.desc, Some(">0".to_owned()));
            assert_eq!(f(param.speed), 0.1);
        }
        _ => panic!("the standard deviation is a floating parameter"),
    }
}

#[test]
fn triangular_parameters_come_as_min_max_mode() {
    let params = cont_distr::DistrTypes::Triangular.get_defaults();
    let names: Vec<String> = params.iter().map(|p| p.name().clone()).collect();
    assert_eq!(names, vec!["Min", "Max", "Mode"]);
    let defaults: Vec<f64> = params.iter().map(|p| f(p.default_value())).collect();
    assert_eq!(defaults, vec![0.0, 5.0, 2.5]);
    match &params[2] {
        MixedParam::Float { param } => {
            assert_eq!(param.desc, Some("Min <= Mode <= Max".to_owned()))
        }
        _ => panic!("the mode is a floating parameter"),
    }
}

#[test]
fn log_normal_and_pareto_have_narrow_ranges() {
    let params = cont_distr::DistrTypes::LogNormal.get_defaults();
    match &params[1] {
        MixedParam::Float { param } => {
            assert_eq!(f(param.default), 0.5);
            assert_eq!(f(*param.range.end()), 3.0);
            assert_eq!(f(param.speed), 0.01);
        }
        _ => panic!("the scale is a floating parameter"),
    }
    let params = cont_distr::DistrTypes::Pareto.get_defaults();
    match &params[1] {
        MixedParam::Float { param } => {
            assert_eq!(param.name, "Shape");
            assert_eq!(f(param.default), 2.0);
            assert_eq!(f(*param.range.end()), 1000.0);
        }
        _ => panic!("the shape is a floating parameter"),
    }
    let params = cont_distr::DistrTypes::ChiSquared.get_defaults();
    match &params[0] {
        MixedParam::Float { param } => {
            assert_eq!(param.name, "Freedom");
            assert_eq!(f(param.default), 3.0);
            assert_eq!(f(*param.range.start()), 1.0);
        }
        _ => panic!("the freedom is a floating parameter"),
    }
}

#[test]
fn hypergeometric_parameters_are_unsigned() {
    let params = disc_distr::DistrTypes::Hypergeometric.get_defaults();
    let mut seen: Vec<(String, u64, u64, u64)> = Vec::new();
    for p in &params {
        match p {
            MixedParam::Unsigned { param } => seen.push((
                param.name.clone(),
                param.default,
                *param.range.start(),
                *param.range.end(),
            )),
            _ => panic!("all three are unsigned parameters"),
        }
    }
    assert_eq!(
        seen,
        vec![
            ("Population".to_owned(), 500, 1, u64::MAX),
            ("Successes".to_owned(), 50, 0, u64::MAX),
            ("Draws".to_owned(), 100, 0, u64::MAX),
        ]
    );
    let defaults: Vec<f64> = params.iter().map(|p| f(p.default_value())).collect();
    assert_eq!(defaults, vec![500.0, 50.0, 100.0]);
}

#[test]
fn binomial_takes_a_probability_and_a_count() {
    let params = disc_distr::DistrTypes::Binomial.get_defaults();
    match &params[0] {
        MixedParam::Float { param } => {
            assert_eq!(param.name, "p");
            assert_eq!(f(param.default), 0.5);
            assert_eq!(f(*param.range.start()), 0.0);
            assert_eq!(f(*param.range.end()), 1.0);
        }
        _ => panic!("the probability is a floating parameter"),
    }
    match &params[1] {
        MixedParam::Unsigned { param } => {
            assert_eq!(param.name, "n");
            assert_eq!(param.default, 5);
        }
        _ => panic!("the count is an unsigned parameter"),
    }
}

#[test]
fn barely_positive_is_a_thousandth() {
    assert_eq!(f64::from_bits(BARELY_POSITIVE), 0.001);
}

#[test]
fn default_values_follow_the_kind_of_the_parameter() {
    let float = MixedParam::float("x", 2.5_f64.to_bits(), 0, f64::MAX.to_bits(), None, ONE_BITS);
    assert_eq!(f(float.default_value()), 2.5);
    let unsigned = MixedParam::unsigned("n", u64::MAX, 0, u64::MAX, Some("any"), ONE_BITS);
    assert_eq!(f(unsigned.default_value()), 18446744073709551616.0);
    assert_eq!(unsigned.name(), "n");
}

const ONE_BITS: u64 = 0x3FF0_0000_0000_0000;

#[test]
fn all_families_are_the_continuous_then_the_discrete() {
    let mut expected: Vec<Family> = Vec::new();
    for t in cont_distr::DistrTypes::all() {
        expected.push(Family::Continuous(t));
    }
    for t in disc_distr::DistrTypes::all() {
        expected.push(Family::Discrete(t));
    }
    assert_eq!(Family::all(), expected);
    assert_eq!(expected[0], Family::Continuous(cont_distr::DistrTypes::Normal));
    assert_eq!(expected[21], Family::Discrete(disc_distr::DistrTypes::NegativeBinomial));
}

#[test]
fn probabilities_are_known_by_their_name() {
    let mut names: Vec<(String, String)> = Vec::new();
    for family in Family::all() {
        for p in family.defaults().parameters {
            if p.is_probability() {
                names.push((family.to_string(), p.name().clone()));
            }
        }
    }
    let expected: Vec<(String, String)> =
        ["Binomial", "Bernoulli", "Geometric", "NegativeBinomial"]
            .iter()
            .map(|f| (f.to_string(), "p".to_owned()))
            .collect();
    assert_eq!(names, expected);
    let unsigned = MixedParam::unsigned("p", 1, 0, 2, None, ONE_BITS);
    assert!(!unsigned.is_probability());
}

//! The continuous families and their parameters.

use crate::distr::{models, MixedParam, ParamModel, BARELY_POSITIVE};
use crate::double::{
    FIVE, HALF, HUNDREDTH, LARGEST, LOWEST, ONE, TENTH, THOUSAND, THREE, TWO, TWO_AND_A_HALF,
    ZERO,
};
use crate::rules::Rule;
use vstd::prelude::*;

verus! {

/// The continuous families.
#[derive(Debug, PartialEq, Eq, PartialOrd, Clone, Copy, Structural)]
pub enum DistrTypes {
    Normal,
    Gamma,
    Beta,
    Cauchy,
    ChiSquared,
    Exp,
    FisherSnedecor,
    Gumbel,
    InverseGamma,
    Laplace,
    LogNormal,
    Pareto,
    StudentsT,
    Triangular,
    Uniform,
    Weibull,
}

impl DistrTypes {
    /// How many values a constructor of the family takes.
    pub open spec fn arity_spec(self) -> nat {
        match self {
            DistrTypes::ChiSquared => 1,
            DistrTypes::Exp => 1,
            DistrTypes::StudentsT => 3,
            DistrTypes::Triangular => 3,
            _ => 2,
        }
    }

    /// How many values a constructor of the family takes.
    pub fn arity(&self) -> (n: usize)
        ensures
            n == self.arity_spec(),
    {
        match self {
            DistrTypes::ChiSquared => 1,
            DistrTypes::Exp => 1,
            DistrTypes::StudentsT => 3,
            DistrTypes::Triangular => 3,
            _ => 2,
        }
    }

    /// The label of the family.
    pub open spec fn label(self) -> Seq<char> {
        match self {
            DistrTypes::Normal => "Normal"@,
            DistrTypes::Gamma => "Gamma"@,
            DistrTypes::Beta => "Beta"@,
            DistrTypes::Cauchy => "Cauchy"@,
            DistrTypes::ChiSquared => "ChiSquared"@,
            DistrTypes::Exp => "Exp"@,
            DistrTypes::FisherSnedecor => "FisherSnedecor"@,
            DistrTypes::Gumbel => "Gumbel"@,
            DistrTypes::InverseGamma => "InverseGamma"@,
            DistrTypes::Laplace => "Laplace"@,
            DistrTypes::LogNormal => "LogNormal"@,
            DistrTypes::Pareto => "Pareto"@,
            DistrTypes::StudentsT => "StudentsT"@,
            DistrTypes::Triangular => "Triangular"@,
            DistrTypes::Uniform => "Uniform"@,
            DistrTypes::Weibull => "Weibull"@,
        }
    }

    /// The label of the family.
    pub fn to_string(&self) -> (s: String)
        ensures
            s@ == self.label(),
    {
        match self {
            DistrTypes::Normal => "Normal".to_owned(),
            DistrTypes::Gamma => "Gamma".to_owned(),
            DistrTypes::Beta => "Beta".to_owned(),
            DistrTypes::Cauchy => "Cauchy".to_owned(),
            DistrTypes::ChiSquared => "ChiSquared".to_owned(),
            DistrTypes::Exp => "Exp".to_owned(),
            DistrTypes::FisherSnedecor => "FisherSnedecor".to_owned(),
            DistrTypes::Gumbel => "Gumbel".to_owned(),
            DistrTypes::InverseGamma => "InverseGamma".to_owned(),
            DistrTypes::Laplace => "Laplace".to_owned(),
            DistrTypes::LogNormal => "LogNormal".to_owned(),
            DistrTypes::Pareto => "Pareto".to_owned(),
            DistrTypes::StudentsT => "StudentsT".to_owned(),
            DistrTypes::Triangular => "Triangular".to_owned(),
            DistrTypes::Uniform => "Uniform".to_owned(),
            DistrTypes::Weibull => "Weibull".to_owned(),
        }
    }

    /// Every family, once, in the order of declaration.
    pub open spec fn every() -> Seq<DistrTypes> {
        seq![
            DistrTypes::Normal,
            DistrTypes::Gamma,
            DistrTypes::Beta,
            DistrTypes::Cauchy,
            DistrTypes::ChiSquared,
            DistrTypes::Exp,
            DistrTypes::FisherSnedecor,
            DistrTypes::Gumbel,
            DistrTypes::InverseGamma,
            DistrTypes::Laplace,
            DistrTypes::LogNormal,
            DistrTypes::Pareto,
            DistrTypes::StudentsT,
            DistrTypes::Triangular,
            DistrTypes::Uniform,
            DistrTypes::Weibull,
        ]
    }

    /// Every family, once, in the order of declaration.
    pub fn all() -> (families: Vec<DistrTypes>)
        ensures
            families@ =~= DistrTypes::every(),
    {
        vec![
            DistrTypes::Normal,
            DistrTypes::Gamma,
            DistrTypes::Beta,
            DistrTypes::Cauchy,
            DistrTypes::ChiSquared,
            DistrTypes::Exp,
            DistrTypes::FisherSnedecor,
            DistrTypes::Gumbel,
            DistrTypes::InverseGamma,
            DistrTypes::Laplace,
            DistrTypes::LogNormal,
            DistrTypes::Pareto,
            DistrTypes::StudentsT,
            DistrTypes::Triangular,
            DistrTypes::Uniform,
            DistrTypes::Weibull,
        ]
    }

    /// The parameters of the family, in the order in which a constructor
    /// takes their values.
    pub open spec fn schema(self) -> Seq<ParamModel> {
        let above_zero = Some(">0"@);
        match self {
            DistrTypes::Normal => seq![
                ParamModel::float("Mean"@, ZERO, LOWEST, LARGEST, None, ONE),
                ParamModel::float("Std. dev."@, ONE, BARELY_POSITIVE, LARGEST, above_zero, TENTH),
            ],
            DistrTypes::Gamma => seq![
                ParamModel::float("Shape"@, ONE, BARELY_POSITIVE, LARGEST, above_zero, TENTH),
                ParamModel::float("Rate"@, ONE, BARELY_POSITIVE, LARGEST, above_zero, TENTH),
            ],
            DistrTypes::Beta => seq![
                ParamModel::float("Shape A"@, TWO, BARELY_POSITIVE, LARGEST, above_zero, TENTH),
                ParamModel::float("Shape B"@, TWO, BARELY_POSITIVE, LARGEST, above_zero, TENTH),
            ],
            DistrTypes::Cauchy => seq![
                ParamModel::float("Location"@, ZERO, LOWEST, LARGEST, None, ONE),
                ParamModel::float("Scale"@, ONE, BARELY_POSITIVE, LARGEST, above_zero, TENTH),
            ],
            DistrTypes::ChiSquared => seq![
                ParamModel::float("Freedom"@, THREE, ONE, LARGEST, above_zero, ONE),
            ],
            DistrTypes::Exp => seq![
                ParamModel::float("Rate"@, ONE, BARELY_POSITIVE, LARGEST, above_zero, TENTH),
            ],
            DistrTypes::FisherSnedecor => seq![
                ParamModel::float("Freedom 1"@, THREE, BARELY_POSITIVE, LARGEST, above_zero, ONE),
                ParamModel::float("Freedom 2"@, THREE, BARELY_POSITIVE, LARGEST, above_zero, ONE),
            ],
            DistrTypes::Gumbel => seq![
                ParamModel::float("Location"@, ZERO, LOWEST, LARGEST, None, ONE),
                ParamModel::float("Scale"@, ONE, BARELY_POSITIVE, LARGEST, above_zero, TENTH),
            ],
            DistrTypes::InverseGamma => seq![
                ParamModel::float("Shape"@, TWO, BARELY_POSITIVE, LARGEST, above_zero, TENTH),
                ParamModel::float("Rate"@, TWO, BARELY_POSITIVE, LARGEST, above_zero, TENTH),
            ],
            DistrTypes::Laplace => seq![
                ParamModel::float("Location"@, ZERO, LOWEST, LARGEST, None, ONE),
                ParamModel::float("Scale"@, ONE, BARELY_POSITIVE, LARGEST, above_zero, TENTH),
            ],
            DistrTypes::LogNormal => seq![
                ParamModel::float("Location"@, ZERO, LOWEST, LARGEST, None, ONE),
                ParamModel::float("Scale"@, HALF, BARELY_POSITIVE, THREE, above_zero, HUNDREDTH),
            ],
            DistrTypes::Pareto => seq![
                ParamModel::float("Scale"@, ONE, BARELY_POSITIVE, LARGEST, above_zero, TENTH),
                ParamModel::float("Shape"@, TWO, BARELY_POSITIVE, THOUSAND, above_zero, TENTH),
            ],
            DistrTypes::StudentsT => seq![
                ParamModel::float("Location"@, ZERO, LOWEST, LARGEST, None, ONE),
                ParamModel::float("Scale"@, ONE, BARELY_POSITIVE, LARGEST, above_zero, TENTH),
                ParamModel::float("Freedom"@, TWO, BARELY_POSITIVE, LARGEST, above_zero, TENTH),
            ],
            DistrTypes::Triangular => seq![
                ParamModel::float("Min"@, ZERO, LOWEST, LARGEST, Some("<Max"@), TENTH),
                ParamModel::float("Max"@, FIVE, LOWEST, LARGEST, Some(">Min"@), TENTH),
                ParamModel::float("Mode"@, TWO_AND_A_HALF, LOWEST, LARGEST, Some("Min <= Mode <= Max"@), TENTH),
            ],
            DistrTypes::Uniform => seq![
                ParamModel::float("Min"@, ZERO, LOWEST, LARGEST, Some("<Max"@), TENTH),
                ParamModel::float("Max"@, ONE, LOWEST, LARGEST, Some(">Min"@), TENTH),
            ],
            DistrTypes::Weibull => seq![
                ParamModel::float("Shape"@, FIVE, BARELY_POSITIVE, LARGEST, above_zero, TENTH),
                ParamModel::float("Scale"@, ONE, BARELY_POSITIVE, LARGEST, above_zero, TENTH),
            ],
        }
    }

    /// The parameters of the family, in the order in which a constructor
    /// takes their values.
    pub fn get_defaults(&self) -> (params: Vec<MixedParam>)
        ensures
            models(params@) =~= self.schema(),
            params@.len() == self.arity_spec(),
    {
        let above_zero: Option<&str> = Some(">0");
        match self {
            DistrTypes::Normal => vec![
                MixedParam::float("Mean", ZERO, LOWEST, LARGEST, None, ONE),
                MixedParam::float("Std. dev.", ONE, BARELY_POSITIVE, LARGEST, above_zero, TENTH),
            ],
            DistrTypes::Gamma => vec![
                MixedParam::float("Shape", ONE, BARELY_POSITIVE, LARGEST, above_zero, TENTH),
                MixedParam::float("Rate", ONE, BARELY_POSITIVE, LARGEST, above_zero, TENTH),
            ],
            DistrTypes::Beta => vec![
                MixedParam::float("Shape A", TWO, BARELY_POSITIVE, LARGEST, above_zero, TENTH),
                MixedParam::float("Shape B", TWO, BARELY_POSITIVE, LARGEST, above_zero, TENTH),
            ],
            DistrTypes::Cauchy => vec![
                MixedParam::float("Location", ZERO, LOWEST, LARGEST, None, ONE),
                MixedParam::float("Scale", ONE, BARELY_POSITIVE, LARGEST, above_zero, TENTH),
            ],
            DistrTypes::ChiSquared => vec![
                MixedParam::float("Freedom", THREE, ONE, LARGEST, above_zero, ONE),
            ],
            DistrTypes::Exp => vec![
                MixedParam::float("Rate", ONE, BARELY_POSITIVE, LARGEST, above_zero, TENTH),
            ],
            DistrTypes::FisherSnedecor => vec![
                MixedParam::float("Freedom 1", THREE, BARELY_POSITIVE, LARGEST, above_zero, ONE),
                MixedParam::float("Freedom 2", THREE, BARELY_POSITIVE, LARGEST, above_zero, ONE),
            ],
            DistrTypes::Gumbel => vec![
                MixedParam::float("Location", ZERO, LOWEST, LARGEST, None, ONE),
                MixedParam::float("Scale", ONE, BARELY_POSITIVE, LARGEST, above_zero, TENTH),
            ],
            DistrTypes::InverseGamma => vec![
                MixedParam::float("Shape", TWO, BARELY_POSITIVE, LARGEST, above_zero, TENTH),
                MixedParam::float("Rate", TWO, BARELY_POSITIVE, LARGEST, above_zero, TENTH),
            ],
            DistrTypes::Laplace => vec![
                MixedParam::float("Location", ZERO, LOWEST, LARGEST, None, ONE),
                MixedParam::float("Scale", ONE, BARELY_POSITIVE, LARGEST, above_zero, TENTH),
            ],
            DistrTypes::LogNormal => vec![
                MixedParam::float("Location", ZERO, LOWEST, LARGEST, None, ONE),
                MixedParam::float("Scale", HALF, BARELY_POSITIVE, THREE, above_zero, HUNDREDTH),
            ],
            DistrTypes::Pareto => vec![
                MixedParam::float("Scale", ONE, BARELY_POSITIVE, LARGEST, above_zero, TENTH),
                MixedParam::float("Shape", TWO, BARELY_POSITIVE, THOUSAND, above_zero, TENTH),
            ],
            DistrTypes::StudentsT => vec![
                MixedParam::float("Location", ZERO, LOWEST, LARGEST, None, ONE),
                MixedParam::float("Scale", ONE, BARELY_POSITIVE, LARGEST, above_zero, TENTH),
                MixedParam::float("Freedom", TWO, BARELY_POSITIVE, LARGEST, above_zero, TENTH),
            ],
            DistrTypes::Triangular => vec![
                MixedParam::float("Min", ZERO, LOWEST, LARGEST, Some("<Max"), TENTH),
                MixedParam::float("Max", FIVE, LOWEST, LARGEST, Some(">Min"), TENTH),
                MixedParam::float("Mode", TWO_AND_A_HALF, LOWEST, LARGEST, Some("Min <= Mode <= Max"), TENTH),
            ],
            DistrTypes::Uniform => vec![
                MixedParam::float("Min", ZERO, LOWEST, LARGEST, Some("<Max"), TENTH),
                MixedParam::float("Max", ONE, LOWEST, LARGEST, Some(">Min"), TENTH),
            ],
            DistrTypes::Weibull => vec![
                MixedParam::float("Shape", FIVE, BARELY_POSITIVE, LARGEST, above_zero, TENTH),
                MixedParam::float("Scale", ONE, BARELY_POSITIVE, LARGEST, above_zero, TENTH),
            ],
        }
    }

    /// The constraints on the values of the parameters, in the order in which
    /// they are checked.
    pub open spec fn rules_spec(self) -> Seq<Rule> {
        match self {
            DistrTypes::Normal => seq![Rule::Number(0), Rule::Positive(1)],
            DistrTypes::Gamma => seq![
                Rule::Positive(0),
                Rule::Positive(1),
                Rule::NotBothInfinite { first: 0, second: 1 },
            ],
            DistrTypes::Beta => seq![
                Rule::Finite(0),
                Rule::Positive(0),
                Rule::Finite(1),
                Rule::Positive(1),
            ],
            DistrTypes::Cauchy => seq![Rule::Number(0), Rule::Positive(1)],
            DistrTypes::ChiSquared => seq![Rule::Positive(0)],
            DistrTypes::Exp => seq![Rule::Positive(0)],
            DistrTypes::FisherSnedecor => seq![
                Rule::Finite(0),
                Rule::Positive(0),
                Rule::Finite(1),
                Rule::Positive(1),
            ],
            DistrTypes::Gumbel => seq![Rule::Number(0), Rule::Positive(1)],
            DistrTypes::InverseGamma => seq![
                Rule::Finite(0),
                Rule::Positive(0),
                Rule::Finite(1),
                Rule::Positive(1),
            ],
            DistrTypes::Laplace => seq![Rule::Number(0), Rule::Positive(1)],
            DistrTypes::LogNormal => seq![Rule::Number(0), Rule::Positive(1)],
            DistrTypes::Pareto => seq![Rule::Positive(0), Rule::Positive(1)],
            DistrTypes::StudentsT => seq![Rule::Number(0), Rule::Positive(1), Rule::Positive(2)],
            DistrTypes::Triangular => seq![
                Rule::Finite(0),
                Rule::Finite(1),
                Rule::Finite(2),
                Rule::Within { value: 2, low: 0, high: 1 },
                Rule::Below { low: 0, high: 1 },
            ],
            DistrTypes::Uniform => seq![
                Rule::Finite(0),
                Rule::Finite(1),
                Rule::Below { low: 0, high: 1 },
            ],
            DistrTypes::Weibull => seq![Rule::Positive(0), Rule::Positive(1)],
        }
    }

    /// The constraints on the values of the parameters, in the order in which
    /// they are checked.
    pub fn rules(&self) -> (rules: Vec<Rule>)
        ensures
            rules@ =~= self.rules_spec(),
    {
        match self {
            DistrTypes::Normal => vec![Rule::Number(0), Rule::Positive(1)],
            DistrTypes::Gamma => vec![
                Rule::Positive(0),
                Rule::Positive(1),
                Rule::NotBothInfinite { first: 0, second: 1 },
            ],
            DistrTypes::Beta => vec![
                Rule::Finite(0),
                Rule::Positive(0),
                Rule::Finite(1),
                Rule::Positive(1),
            ],
            DistrTypes::Cauchy => vec![Rule::Number(0), Rule::Positive(1)],
            DistrTypes::ChiSquared => vec![Rule::Positive(0)],
            DistrTypes::Exp => vec![Rule::Positive(0)],
            DistrTypes::FisherSnedecor => vec![
                Rule::Finite(0),
                Rule::Positive(0),
                Rule::Finite(1),
                Rule::Positive(1),
            ],
            DistrTypes::Gumbel => vec![Rule::Number(0), Rule::Positive(1)],
            DistrTypes::InverseGamma => vec![
                Rule::Finite(0),
                Rule::Positive(0),
                Rule::Finite(1),
                Rule::Positive(1),
            ],
            DistrTypes::Laplace => vec![Rule::Number(0), Rule::Positive(1)],
            DistrTypes::LogNormal => vec![Rule::Number(0), Rule::Positive(1)],
            DistrTypes::Pareto => vec![Rule::Positive(0), Rule::Positive(1)],
            DistrTypes::StudentsT => vec![Rule::Number(0), Rule::Positive(1), Rule::Positive(2)],
            DistrTypes::Triangular => vec![
                Rule::Finite(0),
                Rule::Finite(1),
                Rule::Finite(2),
                Rule::Within { value: 2, low: 0, high: 1 },
                Rule::Below { low: 0, high: 1 },
            ],
            DistrTypes::Uniform => vec![
                Rule::Finite(0),
                Rule::Finite(1),
                Rule::Below { low: 0, high: 1 },
            ],
            DistrTypes::Weibull => vec![Rule::Positive(0), Rule::Positive(1)],
        }
    }
}

/// The list of the families is complete: every family is in it, at the place
/// of its declaration, and so none is in it twice.
pub proof fn lemma_every_is_complete(family: DistrTypes)
    ensures
        DistrTypes::every().len() == 16,
        0 <= place(family) < DistrTypes::every().len(),
        DistrTypes::every()[place(family)] == family,
        forall|i: int|
            0 <= i < DistrTypes::every().len() && #[trigger] DistrTypes::every()[i] == family ==> i
                == place(family),
{
}

/// The place of a family in the order of declaration, counted from zero.
pub open spec fn place(family: DistrTypes) -> int {
    match family {
        DistrTypes::Normal => 0,
        DistrTypes::Gamma => 1,
        DistrTypes::Beta => 2,
        DistrTypes::Cauchy => 3,
        DistrTypes::ChiSquared => 4,
        DistrTypes::Exp => 5,
        DistrTypes::FisherSnedecor => 6,
        DistrTypes::Gumbel => 7,
        DistrTypes::InverseGamma => 8,
        DistrTypes::Laplace => 9,
        DistrTypes::LogNormal => 10,
        DistrTypes::Pareto => 11,
        DistrTypes::StudentsT => 12,
        DistrTypes::Triangular => 13,
        DistrTypes::Uniform => 14,
        DistrTypes::Weibull => 15,
    }
}

} // verus!

//! The discrete families and their parameters.

use crate::distr::{models, MixedParam, ParamModel, BARELY_POSITIVE};
use crate::double::{FOUR, HALF, HUNDREDTH, LARGEST, ONE, TENTH, ZERO};
use crate::rules::Rule;
use vstd::prelude::*;

verus! {

/// The discrete families.
#[derive(Debug, PartialEq, Eq, PartialOrd, Clone, Copy, Structural)]
pub enum DistrTypes {
    Poisson,
    Binomial,
    Bernoulli,
    Geometric,
    Hypergeometric,
    NegativeBinomial,
}

impl DistrTypes {
    /// How many values a constructor of the family takes.
    pub open spec fn arity_spec(self) -> nat {
        match self {
            DistrTypes::Poisson => 1,
            DistrTypes::Bernoulli => 1,
            DistrTypes::Geometric => 1,
            DistrTypes::Hypergeometric => 3,
            _ => 2,
        }
    }

    /// How many values a constructor of the family takes.
    pub fn arity(&self) -> (n: usize)
        ensures
            n == self.arity_spec(),
    {
        match self {
            DistrTypes::Poisson => 1,
            DistrTypes::Bernoulli => 1,
            DistrTypes::Geometric => 1,
            DistrTypes::Hypergeometric => 3,
            _ => 2,
        }
    }

    /// The label of the family.
    pub open spec fn label(self) -> Seq<char> {
        match self {
            DistrTypes::Poisson => "Poisson"@,
            DistrTypes::Binomial => "Binomial"@,
            DistrTypes::Bernoulli => "Bernoulli"@,
            DistrTypes::Geometric => "Geometric"@,
            DistrTypes::Hypergeometric => "Hypergeometric"@,
            DistrTypes::NegativeBinomial => "NegativeBinomial"@,
        }
    }

    /// The label of the family.
    pub fn to_string(&self) -> (s: String)
        ensures
            s@ == self.label(),
    {
        match self {
            DistrTypes::Poisson => "Poisson".to_owned(),
            DistrTypes::Binomial => "Binomial".to_owned(),
            DistrTypes::Bernoulli => "Bernoulli".to_owned(),
            DistrTypes::Geometric => "Geometric".to_owned(),
            DistrTypes::Hypergeometric => "Hypergeometric".to_owned(),
            DistrTypes::NegativeBinomial => "NegativeBinomial".to_owned(),
        }
    }

    /// Every family, once, in the order of declaration.
    pub open spec fn every() -> Seq<DistrTypes> {
        seq![
            DistrTypes::Poisson,
            DistrTypes::Binomial,
            DistrTypes::Bernoulli,
            DistrTypes::Geometric,
            DistrTypes::Hypergeometric,
            DistrTypes::NegativeBinomial,
        ]
    }

    /// Every family, once, in the order of declaration.
    pub fn all() -> (families: Vec<DistrTypes>)
        ensures
            families@ =~= DistrTypes::every(),
    {
        vec![
            DistrTypes::Poisson,
            DistrTypes::Binomial,
            DistrTypes::Bernoulli,
            DistrTypes::Geometric,
            DistrTypes::Hypergeometric,
            DistrTypes::NegativeBinomial,
        ]
    }

    /// The parameters of the family, in the order in which a constructor
    /// takes their values.
    pub open spec fn schema(self) -> Seq<ParamModel> {
        match self {
            DistrTypes::Poisson => seq![
                ParamModel::float("Lambda"@, ONE, BARELY_POSITIVE, LARGEST, None, TENTH),
            ],
            DistrTypes::Binomial => seq![
                ParamModel::float("p"@, HALF, ZERO, ONE, None, HUNDREDTH),
                ParamModel::unsigned("n"@, 5, 0, 0xFFFF_FFFF_FFFF_FFFF, None, ONE),
            ],
            DistrTypes::Bernoulli => seq![
                ParamModel::float("p"@, HALF, ZERO, ONE, None, HUNDREDTH),
            ],
            DistrTypes::Geometric => seq![
                ParamModel::float("p"@, HALF, BARELY_POSITIVE, ONE, None, HUNDREDTH),
            ],
            DistrTypes::Hypergeometric => seq![
                ParamModel::unsigned("Population"@, 500, 1, 0xFFFF_FFFF_FFFF_FFFF, None, ONE),
                ParamModel::unsigned("Successes"@, 50, 0, 0xFFFF_FFFF_FFFF_FFFF, None, ONE),
                ParamModel::unsigned("Draws"@, 100, 0, 0xFFFF_FFFF_FFFF_FFFF, None, ONE),
            ],
            DistrTypes::NegativeBinomial => seq![
                ParamModel::float("r"@, FOUR, ZERO, LARGEST, None, TENTH),
                ParamModel::float("p"@, HALF, ZERO, ONE, None, HUNDREDTH),
            ],
        }
    }

    /// The parameters of the family, in the order in which a constructor
    /// takes their values.
    pub fn get_defaults(&self) -> (params: Vec<MixedParam>)
        ensures
            models(params@) =~= self.schema(),
            params@.len() == self.arity_spec(),
    {
        match self {
            DistrTypes::Poisson => vec![
                MixedParam::float("Lambda", ONE, BARELY_POSITIVE, LARGEST, None, TENTH),
            ],
            DistrTypes::Binomial => vec![
                MixedParam::float("p", HALF, ZERO, ONE, None, HUNDREDTH),
                MixedParam::unsigned("n", 5, 0, 0xFFFF_FFFF_FFFF_FFFF, None, ONE),
            ],
            DistrTypes::Bernoulli => vec![
                MixedParam::float("p", HALF, ZERO, ONE, None, HUNDREDTH),
            ],
            DistrTypes::Geometric => vec![
                MixedParam::float("p", HALF, BARELY_POSITIVE, ONE, None, HUNDREDTH),
            ],
            DistrTypes::Hypergeometric => vec![
                MixedParam::unsigned("Population", 500, 1, 0xFFFF_FFFF_FFFF_FFFF, None, ONE),
                MixedParam::unsigned("Successes", 50, 0, 0xFFFF_FFFF_FFFF_FFFF, None, ONE),
                MixedParam::unsigned("Draws", 100, 0, 0xFFFF_FFFF_FFFF_FFFF, None, ONE),
            ],
            DistrTypes::NegativeBinomial => vec![
                MixedParam::float("r", FOUR, ZERO, LARGEST, None, TENTH),
                MixedParam::float("p", HALF, ZERO, ONE, None, HUNDREDTH),
            ],
        }
    }

    /// The constraints on the values of the parameters, in the order in which
    /// they are checked.
    pub open spec fn rules_spec(self) -> Seq<Rule> {
        match self {
            DistrTypes::Poisson => seq![Rule::Positive(0)],
            DistrTypes::Binomial => seq![Rule::Probability(0), Rule::Whole(1)],
            DistrTypes::Bernoulli => seq![Rule::Probability(0)],
            DistrTypes::Geometric => seq![Rule::Positive(0), Rule::Probability(0)],
            DistrTypes::Hypergeometric => seq![
                Rule::Whole(0),
                Rule::Whole(1),
                Rule::Whole(2),
                Rule::AtMost { value: 1, limit: 0 },
                Rule::AtMost { value: 2, limit: 0 },
            ],
            DistrTypes::NegativeBinomial => seq![Rule::NonNegative(0), Rule::Probability(1)],
        }
    }

    /// The constraints on the values of the parameters, in the order in which
    /// they are checked.
    pub fn rules(&self) -> (rules: Vec<Rule>)
        ensures
            rules@ =~= self.rules_spec(),
    {
        match self {
            DistrTypes::Poisson => vec![Rule::Positive(0)],
            DistrTypes::Binomial => vec![Rule::Probability(0), Rule::Whole(1)],
            DistrTypes::Bernoulli => vec![Rule::Probability(0)],
            DistrTypes::Geometric => vec![Rule::Positive(0), Rule::Probability(0)],
            DistrTypes::Hypergeometric => vec![
                Rule::Whole(0),
                Rule::Whole(1),
                Rule::Whole(2),
                Rule::AtMost { value: 1, limit: 0 },
                Rule::AtMost { value: 2, limit: 0 },
            ],
            DistrTypes::NegativeBinomial => vec![Rule::NonNegative(0), Rule::Probability(1)],
        }
    }
}

/// The list of the families is complete: every family is in it, at the place
/// of its declaration, and so none is in it twice.
pub proof fn lemma_every_is_complete(family: DistrTypes)
    ensures
        DistrTypes::every().len() == 6,
        0 <= place(family) < DistrTypes::every().len(),
        DistrTypes::every()[place(family)] == family,
        forall|i: int|
            0 <= i < DistrTypes::every().len() && #[trigger] DistrTypes::every()[i] == family ==> i
                == place(family),
{
}

/// The place of a family in the order of declaration, counted from zero.
pub open spec fn place(family: DistrTypes) -> int {
    match family {
        DistrTypes::Poisson => 0,
        DistrTypes::Binomial => 1,
        DistrTypes::Bernoulli => 2,
        DistrTypes::Geometric => 3,
        DistrTypes::Hypergeometric => 4,
        DistrTypes::NegativeBinomial => 5,
    }
}

} // verus!

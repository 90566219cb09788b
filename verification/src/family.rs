//! The catalogue of families and the validated construction of a
//! distribution from a family and the values of its parameters.

use crate::distr::cont_distr;
use crate::distr::disc_distr;
use crate::distr::{lemma_in_order_is_well_formed, models, MixedParam, ParamModel};
use crate::double::{
    lemma_nearest_is_exact, Double, FIVE, FOUR, HALF, INFINITY, ONE, THREE, TWO, TWO_AND_A_HALF,
    ZERO,
};
use crate::rules::{
    all_fit, all_hold, first_broken, first_violation, lemma_broken_or_accepted,
    lemma_rule_by_key, Rule,
};
use vstd::arithmetic::power2::{lemma_pow2_pos, pow2};
use vstd::prelude::*;

verus! {

/// One of the families that the catalogue knows.
#[derive(Debug, PartialEq, Eq, Clone, Copy, Structural)]
pub enum Family {
    Continuous(cont_distr::DistrTypes),
    Discrete(disc_distr::DistrTypes),
}

/// A family together with its parameters, in the order in which
/// [`Family::construct`] takes their values.
#[derive(Debug, Clone)]
pub struct DistributionDescriptor {
    pub family: Family,
    pub parameters: Vec<MixedParam>,
}

/// Why no distribution was constructed.
#[derive(Debug, Clone, PartialEq)]
pub enum ConstructionError {
    /// The number of values is not the number of parameters of the family.
    ArityMismatch { expected: usize, found: usize },
    /// A constraint of the family is broken: `reason` is the first broken one,
    /// `position` and `name` say which parameter is at fault.
    InvalidParameter { name: String, position: usize, reason: Rule },
}

/// A family bound to values that satisfy all its constraints. It is made by
/// [`Family::construct`] only and never changes.
#[derive(Debug)]
pub struct Distribution {
    family: Family,
    values: Vec<Double>,
}

impl Family {
    /// How many values a constructor of the family takes.
    pub open spec fn arity_spec(self) -> nat {
        match self {
            Family::Continuous(f) => f.arity_spec(),
            Family::Discrete(f) => f.arity_spec(),
        }
    }

    /// The parameters of the family.
    pub open spec fn schema(self) -> Seq<ParamModel> {
        match self {
            Family::Continuous(f) => f.schema(),
            Family::Discrete(f) => f.schema(),
        }
    }

    /// The constraints of the family, in the order in which they are checked.
    pub open spec fn rules_spec(self) -> Seq<Rule> {
        match self {
            Family::Continuous(f) => f.rules_spec(),
            Family::Discrete(f) => f.rules_spec(),
        }
    }

    /// The label of the family.
    pub open spec fn label(self) -> Seq<char> {
        match self {
            Family::Continuous(f) => f.label(),
            Family::Discrete(f) => f.label(),
        }
    }

    /// Whether the values make a distribution of the family: there is one
    /// value for each parameter, and every constraint holds.
    pub open spec fn accepts(self, values: Seq<Double>) -> bool {
        values.len() == self.arity_spec() && all_hold(self.rules_spec(), values)
    }

    /// How many values a constructor of the family takes.
    pub fn arity(&self) -> (n: usize)
        ensures
            n == self.arity_spec(),
    {
        match self {
            Family::Continuous(f) => f.arity(),
            Family::Discrete(f) => f.arity(),
        }
    }

    /// The label of the family.
    pub fn to_string(&self) -> (s: String)
        ensures
            s@ == self.label(),
    {
        match self {
            Family::Continuous(f) => f.to_string(),
            Family::Discrete(f) => f.to_string(),
        }
    }

    /// The constraints of the family, in the order in which they are checked.
    pub fn rules(&self) -> (rules: Vec<Rule>)
        ensures
            rules@ =~= self.rules_spec(),
    {
        match self {
            Family::Continuous(f) => f.rules(),
            Family::Discrete(f) => f.rules(),
        }
    }

    /// Every family: the continuous ones, then the discrete ones, each group
    /// in the order of declaration.
    pub open spec fn every() -> Seq<Family> {
        cont_distr::DistrTypes::every().map_values(|t: cont_distr::DistrTypes| Family::Continuous(t))
            + disc_distr::DistrTypes::every().map_values(
            |t: disc_distr::DistrTypes| Family::Discrete(t),
        )
    }

    /// Every family: the continuous ones, then the discrete ones, each group
    /// in the order of declaration.
    pub fn all() -> (families: Vec<Family>)
        ensures
            families@ =~= Family::every(),
    {
        let continuous = cont_distr::DistrTypes::all();
        let discrete = disc_distr::DistrTypes::all();
        let mut families: Vec<Family> = Vec::new();
        let mut i: usize = 0;
        while i < continuous.len()
            invariant
                i <= continuous@.len(),
                families@ =~= continuous@.take(i as int).map_values(
                    |t: cont_distr::DistrTypes| Family::Continuous(t),
                ),
            decreases continuous@.len() - i,
        {
            families.push(Family::Continuous(continuous[i]));
            i += 1;
        }
        assert(continuous@.take(i as int) =~= continuous@);
        let ghost first = families@;
        let mut j: usize = 0;
        while j < discrete.len()
            invariant
                j <= discrete@.len(),
                families@ =~= first + discrete@.take(j as int).map_values(
                    |t: disc_distr::DistrTypes| Family::Discrete(t),
                ),
            decreases discrete@.len() - j,
        {
            families.push(Family::Discrete(discrete[j]));
            j += 1;
        }
        assert(discrete@.take(j as int) =~= discrete@);
        families
    }

    /// The family with its parameters.
    pub fn defaults(&self) -> (descriptor: DistributionDescriptor)
        ensures
            descriptor.family == *self,
            models(descriptor.parameters@) =~= self.schema(),
            descriptor.parameters@.len() == self.arity_spec(),
    {
        let parameters: Vec<MixedParam> = match self {
            Family::Continuous(f) => f.get_defaults(),
            Family::Discrete(f) => f.get_defaults(),
        };
        DistributionDescriptor { family: *self, parameters }
    }

    /// The distribution of this family with the initial values of its
    /// parameters. There always is one: see [`lemma_defaults_are_accepted`].
    pub fn default_distribution(&self) -> (d: Distribution)
        ensures
            d.family_spec() == *self,
            d.values_spec().len() == self.schema().len(),
            forall|i: int|
                0 <= i < self.schema().len() ==> (#[trigger] self.schema()[i]).default.shown_by(
                    d.values_spec()[i],
                ),
    {
        let descriptor = self.defaults();
        let values: Vec<Double> = descriptor.default_values();
        proof {
            assert forall|i: int| 0 <= i < values@.len() implies (#[trigger] self.schema()[i])
                .default.shown_by(values@[i]) by {
                assert(models(descriptor.parameters@)[i] == descriptor.parameters@[i]@);
            }
            lemma_defaults_are_accepted(*self, values@);
        }
        match self.construct(&values) {
            Ok(d) => d,
            Err(_) => {
                proof {
                    lemma_broken_or_accepted(self.rules_spec(), values@);
                }
                vstd::pervasive::unreached()
            },
        }
    }

    /// The distribution of this family with the given values of its
    /// parameters, or the reason why there is none.
    ///
    /// A list of the wrong length is an `ArityMismatch`. Otherwise the
    /// constraints are checked in their order, and the first broken one is
    /// reported with the parameter that it blames. Nothing is clamped or
    /// rounded to make a value fit.
    pub fn construct(&self, values: &Vec<Double>) -> (made: Result<Distribution, ConstructionError>)
        ensures
            match made {
                Ok(d) => self.accepts(values@) && d.family_spec() == *self && d.values_spec()
                    == values@,
                Err(ConstructionError::ArityMismatch { expected, found }) => {
                    &&& values@.len() != self.arity_spec()
                    &&& expected == self.arity_spec()
                    &&& found == values@.len()
                },
                Err(ConstructionError::InvalidParameter { name, position, reason }) => {
                    &&& values@.len() == self.arity_spec()
                    &&& exists|k: int|
                        first_broken(self.rules_spec(), values@, k) && reason
                            == self.rules_spec()[k]
                    &&& position == reason.subject_spec()
                    &&& position < self.schema().len()
                    &&& name@ == self.schema()[position as int].name
                },
            },
    {
        let arity: usize = self.arity();
        if values.len() != arity {
            return Err(ConstructionError::ArityMismatch { expected: arity, found: values.len() });
        }
        let rules: Vec<Rule> = self.rules();
        proof {
            lemma_family_tables(*self);
        }
        match first_violation(&rules, values) {
            Some(k) => {
                let reason: Rule = rules[k];
                let position: usize = reason.subject();
                let descriptor = self.defaults();
                assert(models(descriptor.parameters@)[position as int]
                    == descriptor.parameters@[position as int]@);
                let name: String = descriptor.parameters[position].name().clone();
                Err(ConstructionError::InvalidParameter { name, position, reason })
            },
            None => {
                let mut kept: Vec<Double> = Vec::new();
                let mut i: usize = 0;
                while i < values.len()
                    invariant
                        i <= values.len(),
                        kept@ =~= values@.take(i as int),
                    decreases values.len() - i,
                {
                    kept.push(values[i]);
                    i += 1;
                }
                assert(kept@ =~= values@);
                Ok(Distribution { family: *self, values: kept })
            },
        }
    }
}

impl DistributionDescriptor {
    /// The initial value of each parameter as a binary64 number, in the order
    /// of the parameters.
    pub fn default_values(&self) -> (values: Vec<Double>)
        ensures
            values@.len() == self.parameters@.len(),
            forall|i: int|
                0 <= i < values@.len() ==> (#[trigger] self.parameters@[i])@.default.shown_by(
                    values@[i],
                ),
    {
        let mut values: Vec<Double> = Vec::new();
        let mut i: usize = 0;
        while i < self.parameters.len()
            invariant
                i <= self.parameters@.len(),
                values@.len() == i,
                forall|j: int|
                    0 <= j < i ==> (#[trigger] self.parameters@[j])@.default.shown_by(
                        values@[j],
                    ),
            decreases self.parameters@.len() - i,
        {
            values.push(self.parameters[i].default_value());
            i += 1;
        }
        values
    }
}

impl Distribution {
    #[verifier::type_invariant]
    spec fn valid(self) -> bool {
        self.family.accepts(self.values@)
    }

    /// The family of the distribution.
    pub closed spec fn family_spec(self) -> Family {
        self.family
    }

    /// The values of the parameters of the distribution.
    pub closed spec fn values_spec(self) -> Seq<Double> {
        self.values@
    }

    /// The family of the distribution.
    pub fn family(&self) -> (family: Family)
        ensures
            family == self.family_spec(),
            family.accepts(self.values_spec()),
    {
        proof {
            use_type_invariant(self);
        }
        self.family
    }

    /// The values of the parameters, as [`Family::construct`] got them.
    pub fn values(&self) -> (values: &Vec<Double>)
        ensures
            values@ == self.values_spec(),
            self.family_spec().accepts(values@),
    {
        proof {
            use_type_invariant(self);
        }
        &self.values
    }
}

/// Every parameter of every family keeps the invariant of a parameter: its
/// initial value lies in the range offered for it, and a nudge has a positive
/// size.
pub proof fn lemma_schema_is_well_formed(family: Family, i: int)
    requires
        0 <= i < family.schema().len(),
    ensures
        family.schema()[i].wf(),
{
    let m = family.schema()[i];
    assert(m.lo.in_order(m.default, m.hi) && 0 < m.speed.bits <= INFINITY);
    lemma_in_order_is_well_formed(m);
}

/// A family accepts the initial values of its own parameters.
pub proof fn lemma_defaults_are_accepted(family: Family, values: Seq<Double>)
    requires
        values.len() == family.schema().len(),
        forall|i: int|
            0 <= i < values.len() ==> (#[trigger] family.schema()[i]).default.shown_by(values[i]),
    ensures
        family.accepts(values),
{
    lemma_family_tables(family);
    let schema = family.schema();
    assert(schema[0].default.shown_by(values[0]));
    if schema.len() > 1 {
        assert(schema[1].default.shown_by(values[1]));
    }
    if schema.len() > 2 {
        assert(schema[2].default.shown_by(values[2]));
    }
    match family {
        Family::Continuous(f) => lemma_continuous_defaults(f, values),
        Family::Discrete(f) => lemma_discrete_defaults(f, values),
    }
}

proof fn lemma_continuous_defaults(f: cont_distr::DistrTypes, values: Seq<Double>)
    requires
        values.len() == f.schema().len(),
        f.schema()[0].default.shown_by(values[0]),
        f.schema().len() > 1 ==> f.schema()[1].default.shown_by(values[1]),
        f.schema().len() > 2 ==> f.schema()[2].default.shown_by(values[2]),
    ensures
        all_hold(f.rules_spec(), values),
{
    match f {
        cont_distr::DistrTypes::Normal => {
            lemma_normal_defaults(values);
        },
        cont_distr::DistrTypes::Gamma => {
            lemma_gamma_defaults(values);
        },
        cont_distr::DistrTypes::Beta => {
            lemma_beta_defaults(values);
        },
        cont_distr::DistrTypes::Cauchy => {
            lemma_cauchy_defaults(values);
        },
        cont_distr::DistrTypes::ChiSquared => {
            lemma_chi_squared_defaults(values);
        },
        cont_distr::DistrTypes::Exp => {
            lemma_exp_defaults(values);
        },
        cont_distr::DistrTypes::FisherSnedecor => {
            lemma_fisher_snedecor_defaults(values);
        },
        cont_distr::DistrTypes::Gumbel => {
            lemma_gumbel_defaults(values);
        },
        cont_distr::DistrTypes::InverseGamma => {
            lemma_inverse_gamma_defaults(values);
        },
        cont_distr::DistrTypes::Laplace => {
            lemma_laplace_defaults(values);
        },
        cont_distr::DistrTypes::LogNormal => {
            lemma_log_normal_defaults(values);
        },
        cont_distr::DistrTypes::Pareto => {
            lemma_pareto_defaults(values);
        },
        cont_distr::DistrTypes::StudentsT => {
            lemma_students_t_defaults(values);
        },
        cont_distr::DistrTypes::Triangular => {
            lemma_triangular_defaults(values);
        },
        cont_distr::DistrTypes::Uniform => {
            lemma_uniform_defaults(values);
        },
        cont_distr::DistrTypes::Weibull => {
            lemma_weibull_defaults(values);
        },
    }
}

proof fn lemma_discrete_defaults(f: disc_distr::DistrTypes, values: Seq<Double>)
    requires
        values.len() == f.schema().len(),
        f.schema()[0].default.shown_by(values[0]),
        f.schema().len() > 1 ==> f.schema()[1].default.shown_by(values[1]),
        f.schema().len() > 2 ==> f.schema()[2].default.shown_by(values[2]),
    ensures
        all_hold(f.rules_spec(), values),
{
    match f {
        disc_distr::DistrTypes::Poisson => {
            lemma_poisson_defaults(values);
        },
        disc_distr::DistrTypes::Binomial => {
            lemma_nearest_is_exact(5);
            lemma_binomial_defaults(values);
        },
        disc_distr::DistrTypes::Bernoulli => {
            lemma_bernoulli_defaults(values);
        },
        disc_distr::DistrTypes::Geometric => {
            lemma_geometric_defaults(values);
        },
        disc_distr::DistrTypes::Hypergeometric => {
            lemma_nearest_is_exact(500);
            lemma_nearest_is_exact(50);
            lemma_nearest_is_exact(100);
            lemma_hypergeometric_defaults(values);
        },
        disc_distr::DistrTypes::NegativeBinomial => {
            lemma_negative_binomial_defaults(values);
        },
    }
}

proof fn lemma_normal_defaults(values: Seq<Double>)
    requires
        values.len() == 2,
        values[0] == (Double { bits: ZERO }),
        values[1] == (Double { bits: ONE }),
    ensures
        all_hold(cont_distr::DistrTypes::Normal.rules_spec(), values),
{
    lemma_rule_by_key(Rule::Number(0), values);
    lemma_rule_by_key(Rule::Positive(1), values);
}

proof fn lemma_gamma_defaults(values: Seq<Double>)
    requires
        values.len() == 2,
        values[0] == (Double { bits: ONE }),
        values[1] == (Double { bits: ONE }),
    ensures
        all_hold(cont_distr::DistrTypes::Gamma.rules_spec(), values),
{
    lemma_rule_by_key(Rule::Positive(0), values);
    lemma_rule_by_key(Rule::Positive(1), values);
    lemma_rule_by_key(Rule::NotBothInfinite { first: 0, second: 1 }, values);
}

proof fn lemma_beta_defaults(values: Seq<Double>)
    requires
        values.len() == 2,
        values[0] == (Double { bits: TWO }),
        values[1] == (Double { bits: TWO }),
    ensures
        all_hold(cont_distr::DistrTypes::Beta.rules_spec(), values),
{
    lemma_rule_by_key(Rule::Finite(0), values);
    lemma_rule_by_key(Rule::Positive(0), values);
    lemma_rule_by_key(Rule::Finite(1), values);
    lemma_rule_by_key(Rule::Positive(1), values);
}

proof fn lemma_cauchy_defaults(values: Seq<Double>)
    requires
        values.len() == 2,
        values[0] == (Double { bits: ZERO }),
        values[1] == (Double { bits: ONE }),
    ensures
        all_hold(cont_distr::DistrTypes::Cauchy.rules_spec(), values),
{
    lemma_rule_by_key(Rule::Number(0), values);
    lemma_rule_by_key(Rule::Positive(1), values);
}

proof fn lemma_chi_squared_defaults(values: Seq<Double>)
    requires
        values.len() == 1,
        values[0] == (Double { bits: THREE }),
    ensures
        all_hold(cont_distr::DistrTypes::ChiSquared.rules_spec(), values),
{
    lemma_rule_by_key(Rule::Positive(0), values);
}

proof fn lemma_exp_defaults(values: Seq<Double>)
    requires
        values.len() == 1,
        values[0] == (Double { bits: ONE }),
    ensures
        all_hold(cont_distr::DistrTypes::Exp.rules_spec(), values),
{
    lemma_rule_by_key(Rule::Positive(0), values);
}

proof fn lemma_fisher_snedecor_defaults(values: Seq<Double>)
    requires
        values.len() == 2,
        values[0] == (Double { bits: THREE }),
        values[1] == (Double { bits: THREE }),
    ensures
        all_hold(cont_distr::DistrTypes::FisherSnedecor.rules_spec(), values),
{
    lemma_rule_by_key(Rule::Finite(0), values);
    lemma_rule_by_key(Rule::Positive(0), values);
    lemma_rule_by_key(Rule::Finite(1), values);
    lemma_rule_by_key(Rule::Positive(1), values);
}

proof fn lemma_gumbel_defaults(values: Seq<Double>)
    requires
        values.len() == 2,
        values[0] == (Double { bits: ZERO }),
        values[1] == (Double { bits: ONE }),
    ensures
        all_hold(cont_distr::DistrTypes::Gumbel.rules_spec(), values),
{
    lemma_rule_by_key(Rule::Number(0), values);
    lemma_rule_by_key(Rule::Positive(1), values);
}

proof fn lemma_inverse_gamma_defaults(values: Seq<Double>)
    requires
        values.len() == 2,
        values[0] == (Double { bits: TWO }),
        values[1] == (Double { bits: TWO }),
    ensures
        all_hold(cont_distr::DistrTypes::InverseGamma.rules_spec(), values),
{
    lemma_rule_by_key(Rule::Finite(0), values);
    lemma_rule_by_key(Rule::Positive(0), values);
    lemma_rule_by_key(Rule::Finite(1), values);
    lemma_rule_by_key(Rule::Positive(1), values);
}

proof fn lemma_laplace_defaults(values: Seq<Double>)
    requires
        values.len() == 2,
        values[0] == (Double { bits: ZERO }),
        values[1] == (Double { bits: ONE }),
    ensures
        all_hold(cont_distr::DistrTypes::Laplace.rules_spec(), values),
{
    lemma_rule_by_key(Rule::Number(0), values);
    lemma_rule_by_key(Rule::Positive(1), values);
}

proof fn lemma_log_normal_defaults(values: Seq<Double>)
    requires
        values.len() == 2,
        values[0] == (Double { bits: ZERO }),
        values[1] == (Double { bits: HALF }),
    ensures
        all_hold(cont_distr::DistrTypes::LogNormal.rules_spec(), values),
{
    lemma_rule_by_key(Rule::Number(0), values);
    lemma_rule_by_key(Rule::Positive(1), values);
}

proof fn lemma_pareto_defaults(values: Seq<Double>)
    requires
        values.len() == 2,
        values[0] == (Double { bits: ONE }),
        values[1] == (Double { bits: TWO }),
    ensures
        all_hold(cont_distr::DistrTypes::Pareto.rules_spec(), values),
{
    lemma_rule_by_key(Rule::Positive(0), values);
    lemma_rule_by_key(Rule::Positive(1), values);
}

proof fn lemma_students_t_defaults(values: Seq<Double>)
    requires
        values.len() == 3,
        values[0] == (Double { bits: ZERO }),
        values[1] == (Double { bits: ONE }),
        values[2] == (Double { bits: TWO }),
    ensures
        all_hold(cont_distr::DistrTypes::StudentsT.rules_spec(), values),
{
    lemma_rule_by_key(Rule::Number(0), values);
    lemma_rule_by_key(Rule::Positive(1), values);
    lemma_rule_by_key(Rule::Positive(2), values);
}

proof fn lemma_triangular_defaults(values: Seq<Double>)
    requires
        values.len() == 3,
        values[0] == (Double { bits: ZERO }),
        values[1] == (Double { bits: FIVE }),
        values[2] == (Double { bits: TWO_AND_A_HALF }),
    ensures
        all_hold(cont_distr::DistrTypes::Triangular.rules_spec(), values),
{
    lemma_rule_by_key(Rule::Finite(0), values);
    lemma_rule_by_key(Rule::Finite(1), values);
    lemma_rule_by_key(Rule::Finite(2), values);
    lemma_rule_by_key(Rule::Within { value: 2, low: 0, high: 1 }, values);
    lemma_rule_by_key(Rule::Below { low: 0, high: 1 }, values);
}

proof fn lemma_uniform_defaults(values: Seq<Double>)
    requires
        values.len() == 2,
        values[0] == (Double { bits: ZERO }),
        values[1] == (Double { bits: ONE }),
    ensures
        all_hold(cont_distr::DistrTypes::Uniform.rules_spec(), values),
{
    lemma_rule_by_key(Rule::Finite(0), values);
    lemma_rule_by_key(Rule::Finite(1), values);
    lemma_rule_by_key(Rule::Below { low: 0, high: 1 }, values);
}

proof fn lemma_weibull_defaults(values: Seq<Double>)
    requires
        values.len() == 2,
        values[0] == (Double { bits: FIVE }),
        values[1] == (Double { bits: ONE }),
    ensures
        all_hold(cont_distr::DistrTypes::Weibull.rules_spec(), values),
{
    lemma_rule_by_key(Rule::Positive(0), values);
    lemma_rule_by_key(Rule::Positive(1), values);
}

proof fn lemma_poisson_defaults(values: Seq<Double>)
    requires
        values.len() == 1,
        values[0] == (Double { bits: ONE }),
    ensures
        all_hold(disc_distr::DistrTypes::Poisson.rules_spec(), values),
{
    lemma_rule_by_key(Rule::Positive(0), values);
}

proof fn lemma_binomial_defaults(values: Seq<Double>)
    requires
        values.len() == 2,
        values[0] == (Double { bits: HALF }),
        values[1].is_whole(5),
    ensures
        all_hold(disc_distr::DistrTypes::Binomial.rules_spec(), values),
{
    lemma_rule_by_key(Rule::Probability(0), values);
}

proof fn lemma_bernoulli_defaults(values: Seq<Double>)
    requires
        values.len() == 1,
        values[0] == (Double { bits: HALF }),
    ensures
        all_hold(disc_distr::DistrTypes::Bernoulli.rules_spec(), values),
{
    lemma_rule_by_key(Rule::Probability(0), values);
}

proof fn lemma_geometric_defaults(values: Seq<Double>)
    requires
        values.len() == 1,
        values[0] == (Double { bits: HALF }),
    ensures
        all_hold(disc_distr::DistrTypes::Geometric.rules_spec(), values),
{
    lemma_rule_by_key(Rule::Positive(0), values);
    lemma_rule_by_key(Rule::Probability(0), values);
}

proof fn lemma_hypergeometric_defaults(values: Seq<Double>)
    requires
        values.len() == 3,
        values[0].is_whole(500),
        values[1].is_whole(50),
        values[2].is_whole(100),
    ensures
        all_hold(disc_distr::DistrTypes::Hypergeometric.rules_spec(), values),
{
    lemma_pow2_pos(1074);
    let unit = pow2(1074) as int;
    assert(50 * unit <= 500 * unit && 100 * unit <= 500 * unit) by (nonlinear_arith)
        requires
            unit > 0,
    ;
}

proof fn lemma_negative_binomial_defaults(values: Seq<Double>)
    requires
        values.len() == 2,
        values[0] == (Double { bits: FOUR }),
        values[1] == (Double { bits: HALF }),
    ensures
        all_hold(disc_distr::DistrTypes::NegativeBinomial.rules_spec(), values),
{
    lemma_rule_by_key(Rule::NonNegative(0), values);
    lemma_rule_by_key(Rule::Probability(1), values);
}

/// There are twenty-two families, and the list of them holds each one once.
pub proof fn lemma_every_family_is_listed(family: Family)
    ensures
        Family::every().len() == 22,
        Family::every().contains(family),
        forall|i: int, j: int|
            0 <= i < j < Family::every().len() ==> Family::every()[i] != Family::every()[j],
{
    let every = Family::every();
    match family {
        Family::Continuous(t) => {
            cont_distr::lemma_every_is_complete(t);
            assert(every[cont_distr::place(t)] == family);
        },
        Family::Discrete(t) => {
            disc_distr::lemma_every_is_complete(t);
            cont_distr::lemma_every_is_complete(cont_distr::DistrTypes::Normal);
            assert(every[16 + disc_distr::place(t)] == family);
        },
    }
    assert forall|i: int, j: int| 0 <= i < j < every.len() implies every[i] != every[j] by {
        match every[i] {
            Family::Continuous(t) => cont_distr::lemma_every_is_complete(t),
            Family::Discrete(t) => disc_distr::lemma_every_is_complete(t),
        }
    }
}

/// The tables of a family agree with each other: it has as many parameters
/// as its arity says, and each of its constraints reads positions below that
/// number only.
pub proof fn lemma_family_tables(family: Family)
    ensures
        family.schema().len() == family.arity_spec(),
        1 <= family.arity_spec() <= 3,
        all_fit(family.rules_spec(), family.arity_spec()),
{
}

} // verus!

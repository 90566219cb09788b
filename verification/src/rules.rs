//! The constraints that a family puts on the values of its parameters.
//!
//! A family lists its constraints in the order in which they are checked; a
//! list of values is accepted when every constraint holds, and otherwise the
//! first one that is broken says which parameter is at fault and why.

use crate::double::{lemma_read_off_key, Double, INFINITY, ONE, ZERO};
use vstd::prelude::*;

verus! {

/// One constraint on a list of values. The numbers in a rule are positions in
/// that list.
#[derive(Clone, Copy, Debug, PartialEq, Eq, Structural)]
pub enum Rule {
    /// The value is a number: anything but "not a number".
    Number(usize),
    /// The value is a finite number.
    Finite(usize),
    /// The value is a number above zero.
    Positive(usize),
    /// The value is a number that is zero or above.
    NonNegative(usize),
    /// The value is a number from zero to one, both included.
    Probability(usize),
    /// The value is a whole number from zero to below two to the power 64.
    Whole(usize),
    /// The two values are not both infinite.
    NotBothInfinite { first: usize, second: usize },
    /// The value at `low` is strictly below the value at `high`.
    Below { low: usize, high: usize },
    /// The value at `value` is no larger than the value at `limit`.
    AtMost { value: usize, limit: usize },
    /// The value at `value` lies from the value at `low` to the value at
    /// `high`, both included.
    Within { value: usize, low: usize, high: usize },
}

impl Rule {
    /// The position of the parameter that is at fault when the rule is broken.
    pub open spec fn subject_spec(self) -> usize {
        match self {
            Rule::Number(i) => i,
            Rule::Finite(i) => i,
            Rule::Positive(i) => i,
            Rule::NonNegative(i) => i,
            Rule::Probability(i) => i,
            Rule::Whole(i) => i,
            Rule::NotBothInfinite { first, second } => second,
            Rule::Below { low, high } => high,
            Rule::AtMost { value, limit } => value,
            Rule::Within { value, low, high } => value,
        }
    }

    /// Whether every position that the rule reads exists in a list of `len`
    /// values.
    pub open spec fn fits(self, len: nat) -> bool {
        match self {
            Rule::Number(i) => i < len,
            Rule::Finite(i) => i < len,
            Rule::Positive(i) => i < len,
            Rule::NonNegative(i) => i < len,
            Rule::Probability(i) => i < len,
            Rule::Whole(i) => i < len,
            Rule::NotBothInfinite { first, second } => first < len && second < len,
            Rule::Below { low, high } => low < len && high < len,
            Rule::AtMost { value, limit } => value < len && limit < len,
            Rule::Within { value, low, high } => value < len && low < len && high < len,
        }
    }

    /// Whether the values satisfy the rule.
    pub open spec fn holds(self, values: Seq<Double>) -> bool {
        match self {
            Rule::Number(i) => !values[i as int].nan(),
            Rule::Finite(i) => values[i as int].finite(),
            Rule::Positive(i) => !values[i as int].nan() && values[i as int].scaled() > 0,
            Rule::NonNegative(i) => !values[i as int].nan() && values[i as int].scaled() >= 0,
            Rule::Probability(i) => {
                &&& Double { bits: ZERO }.le_spec(values[i as int])
                &&& values[i as int].le_spec(Double { bits: ONE })
            },
            Rule::Whole(i) => values[i as int].whole(),
            Rule::NotBothInfinite { first, second } => {
                !(values[first as int].infinite() && values[second as int].infinite())
            },
            Rule::Below { low, high } => values[low as int].lt_spec(values[high as int]),
            Rule::AtMost { value, limit } => values[value as int].le_spec(values[limit as int]),
            Rule::Within { value, low, high } => {
                &&& values[low as int].le_spec(values[value as int])
                &&& values[value as int].le_spec(values[high as int])
            },
        }
    }

    /// The rule as a statement on the encodings of the values: each numeric
    /// condition becomes a comparison of keys. See [`lemma_rule_by_key`].
    pub open spec fn holds_by_key(self, values: Seq<Double>) -> bool {
        match self {
            Rule::Number(i) => values[i as int].abs_bits() <= INFINITY,
            Rule::Finite(i) => values[i as int].abs_bits() < INFINITY,
            Rule::Positive(i) => values[i as int].abs_bits() <= INFINITY && values[i as int].key()
                > 0,
            Rule::NonNegative(i) => values[i as int].abs_bits() <= INFINITY
                && values[i as int].key() >= 0,
            Rule::Probability(i) => values[i as int].abs_bits() <= INFINITY && 0
                <= values[i as int].key() <= ONE,
            Rule::Whole(i) => values[i as int].whole(),
            Rule::NotBothInfinite { first, second } => {
                !(values[first as int].abs_bits() == INFINITY && values[second as int].abs_bits()
                    == INFINITY)
            },
            Rule::Below { low, high } => {
                &&& values[low as int].abs_bits() <= INFINITY
                &&& values[high as int].abs_bits() <= INFINITY
                &&& values[low as int].key() < values[high as int].key()
            },
            Rule::AtMost { value, limit } => {
                &&& values[value as int].abs_bits() <= INFINITY
                &&& values[limit as int].abs_bits() <= INFINITY
                &&& values[value as int].key() <= values[limit as int].key()
            },
            Rule::Within { value, low, high } => {
                &&& values[value as int].abs_bits() <= INFINITY
                &&& values[low as int].abs_bits() <= INFINITY
                &&& values[high as int].abs_bits() <= INFINITY
                &&& values[low as int].key() <= values[value as int].key()
                    <= values[high as int].key()
            },
        }
    }

    /// The position of the parameter that is at fault when the rule is broken.
    pub fn subject(&self) -> (position: usize)
        ensures
            position == self.subject_spec(),
    {
        match *self {
            Rule::Number(i) => i,
            Rule::Finite(i) => i,
            Rule::Positive(i) => i,
            Rule::NonNegative(i) => i,
            Rule::Probability(i) => i,
            Rule::Whole(i) => i,
            Rule::NotBothInfinite { first, second } => second,
            Rule::Below { low, high } => high,
            Rule::AtMost { value, limit } => value,
            Rule::Within { value, low, high } => value,
        }
    }

    /// Whether the values satisfy the rule.
    pub fn check(&self, values: &Vec<Double>) -> (ok: bool)
        requires
            self.fits(values@.len()),
        ensures
            ok == self.holds(values@),
    {
        match *self {
            Rule::Number(i) => !values[i].is_nan(),
            Rule::Finite(i) => values[i].is_finite(),
            Rule::Positive(i) => values[i].is_positive(),
            Rule::NonNegative(i) => values[i].is_non_negative(),
            Rule::Probability(i) => {
                let zero = Double { bits: ZERO };
                let one = Double { bits: ONE };
                zero.le(&values[i]) && values[i].le(&one)
            },
            Rule::Whole(i) => {
                let whole: Option<u64> = values[i].to_u64();
                whole.is_some()
            },
            Rule::NotBothInfinite { first, second } => {
                !(values[first].is_infinite() && values[second].is_infinite())
            },
            Rule::Below { low, high } => values[low].lt(&values[high]),
            Rule::AtMost { value, limit } => values[value].le(&values[limit]),
            Rule::Within { value, low, high } => {
                values[low].le(&values[value]) && values[value].le(&values[high])
            },
        }
    }
}

/// A rule holds exactly when its statement on the encodings does.
pub proof fn lemma_rule_by_key(rule: Rule, values: Seq<Double>)
    ensures
        rule.holds(values) <==> rule.holds_by_key(values),
{
    let zero = Double { bits: ZERO };
    let one = Double { bits: ONE };
    match rule {
        Rule::Number(i) => lemma_read_off_key(values[i as int], values[i as int]),
        Rule::Finite(i) => lemma_read_off_key(values[i as int], values[i as int]),
        Rule::Positive(i) => lemma_read_off_key(values[i as int], values[i as int]),
        Rule::NonNegative(i) => lemma_read_off_key(values[i as int], values[i as int]),
        Rule::Probability(i) => {
            lemma_read_off_key(zero, values[i as int]);
            lemma_read_off_key(values[i as int], one);
            lemma_read_off_key(one, one);
        },
        Rule::Whole(i) => {},
        Rule::NotBothInfinite { first, second } => {},
        Rule::Below { low, high } => {
            lemma_read_off_key(values[low as int], values[high as int]);
            lemma_read_off_key(values[high as int], values[high as int]);
        },
        Rule::AtMost { value, limit } => {
            lemma_read_off_key(values[value as int], values[limit as int]);
            lemma_read_off_key(values[limit as int], values[limit as int]);
        },
        Rule::Within { value, low, high } => {
            lemma_read_off_key(values[low as int], values[value as int]);
            lemma_read_off_key(values[value as int], values[high as int]);
            lemma_read_off_key(values[high as int], values[high as int]);
        },
    }
}

/// Whether every rule of the list fits a list of `len` values.
pub open spec fn all_fit(rules: Seq<Rule>, len: nat) -> bool {
    forall|k: int| 0 <= k < rules.len() ==> (#[trigger] rules[k]).fits(len)
}

/// Whether the values satisfy every rule of the list.
pub open spec fn all_hold(rules: Seq<Rule>, values: Seq<Double>) -> bool {
    forall|k: int| 0 <= k < rules.len() ==> (#[trigger] rules[k]).holds(values)
}

/// Whether rule `k` is the first of the list that the values break.
pub open spec fn first_broken(rules: Seq<Rule>, values: Seq<Double>, k: int) -> bool {
    &&& 0 <= k < rules.len()
    &&& !rules[k].holds(values)
    &&& forall|j: int| 0 <= j < k ==> (#[trigger] rules[j]).holds(values)
}

/// The first rule of the list that the values break, if there is one.
pub fn first_violation(rules: &Vec<Rule>, values: &Vec<Double>) -> (found: Option<usize>)
    requires
        all_fit(rules@, values@.len()),
    ensures
        match found {
            Some(k) => first_broken(rules@, values@, k as int),
            None => all_hold(rules@, values@),
        },
{
    let mut k: usize = 0;
    while k < rules.len()
        invariant
            k <= rules.len(),
            all_fit(rules@, values@.len()),
            forall|j: int| 0 <= j < k ==> (#[trigger] rules@[j]).holds(values@),
        decreases rules.len() - k,
    {
        if !rules[k].check(values) {
            return Some(k);
        }
        k += 1;
    }
    None
}

/// At most one rule is the first that is broken.
pub proof fn lemma_first_broken_is_unique(rules: Seq<Rule>, values: Seq<Double>, a: int, b: int)
    requires
        first_broken(rules, values, a),
        first_broken(rules, values, b),
    ensures
        a == b,
{
}

/// Values break some rule exactly when they do not satisfy all of them.
pub proof fn lemma_broken_or_accepted(rules: Seq<Rule>, values: Seq<Double>)
    ensures
        all_hold(rules, values) <==> !exists|k: int| first_broken(rules, values, k),
    decreases rules.len(),
{
    if !all_hold(rules, values) {
        let bad = choose|k: int| 0 <= k < rules.len() && !(#[trigger] rules[k]).holds(values);
        lemma_least_broken(rules, values, bad);
    }
}

/// Below a broken rule there is a first broken rule.
proof fn lemma_least_broken(rules: Seq<Rule>, values: Seq<Double>, bad: int)
    requires
        0 <= bad < rules.len(),
        !rules[bad].holds(values),
    ensures
        exists|k: int| first_broken(rules, values, k),
    decreases bad,
{
    if forall|j: int| 0 <= j < bad ==> (#[trigger] rules[j]).holds(values) {
        assert(first_broken(rules, values, bad));
    } else {
        let lower = choose|j: int| 0 <= j < bad && !(#[trigger] rules[j]).holds(values);
        lemma_least_broken(rules, values, lower);
    }
}

} // verus!

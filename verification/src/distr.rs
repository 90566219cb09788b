//! The parameter schema shared by all distribution families, and the summary
//! statistics of a distribution.

use crate::double::{lemma_read_off_key, lemma_rounds_by_fields, Double, INFINITY};
use std::ops::RangeInclusive;
use vstd::arithmetic::power2::{lemma2_to64_rest, pow2};
use vstd::prelude::*;

pub mod cont_distr;
pub mod disc_distr;

verus! {

/// The bit pattern of 0.001, the smallest value offered for a parameter that
/// must be above zero.
pub const BARELY_POSITIVE: u64 = 0x3F50_624D_D2F1_A9FC;

/// [`BARELY_POSITIVE`] is a thousandth, as near as a binary64 number comes to
/// it.
pub proof fn lemma_barely_positive()
    ensures
        (Double { bits: BARELY_POSITIVE }).rounds(1, 1000),
{
    lemma2_to64_rest();
    lemma_rounds_by_fields(Double { bits: BARELY_POSITIVE }, 1, 1000, 62);
}

/// `Clone` of std's `RangeInclusive`, which `Param` needs for its own `Clone`.
/// Nothing is claimed of the copy.
pub assume_specification<Idx: Clone>[ <RangeInclusive<Idx> as Clone>::clone ](
    r: &RangeInclusive<Idx>,
) -> (res: RangeInclusive<Idx>)
;

/// One tunable input of a family: its initial value, the closed range offered
/// for it, its name, an optional hint on what it must satisfy, and the size of
/// one nudge of the input.
///
/// The range is a hint for whoever asks for the value. It is never used to
/// reject one: that is the constructor's work.
#[derive(Clone, PartialEq, Debug)]
pub struct Param<T> {
    pub default: T,
    pub range: RangeInclusive<T>,
    pub name: String,
    pub desc: Option<String>,
    pub speed: Double,
}

/// A parameter of one of the three kinds of number.
#[allow(inconsistent_fields)]
#[derive(Debug, Clone)]
pub enum MixedParam {
    Float { param: Param<Double> },
    Unsigned { param: Param<u64> },
    _Signed { param: Param<i64> },
}

/// A number of one of the three kinds that a parameter can have.
pub enum Number {
    Float(Double),
    Unsigned(u64),
    Signed(i64),
}

/// What a parameter says, as plain mathematical data.
pub struct ParamModel {
    pub name: Seq<char>,
    pub default: Number,
    pub lo: Number,
    pub hi: Number,
    pub desc: Option<Seq<char>>,
    pub speed: Double,
}

/// The text of an optional hint.
pub open spec fn hint_text(desc: Option<String>) -> Option<Seq<char>> {
    match desc {
        Some(s) => Some(s@),
        None => None,
    }
}

/// What each parameter of a list says.
pub open spec fn models(params: Seq<MixedParam>) -> Seq<ParamModel> {
    params.map_values(|p: MixedParam| p@)
}

impl Number {
    /// Whether `d` is this number as a binary64 number: the number itself
    /// where it is one already, else the binary64 number nearest to it.
    pub open spec fn shown_by(self, d: Double) -> bool {
        match self {
            Number::Float(x) => d == x,
            Number::Unsigned(n) => {
                &&& !d.nan()
                &&& !d.negative()
                &&& d.magnitude() == Double::nearest(n as nat) * pow2(1074)
            },
            Number::Signed(i) => {
                &&& !d.nan()
                &&& d.negative() == (i < 0)
                &&& d.magnitude() == Double::nearest(vstd::math::abs(i as int) as nat) * pow2(
                    1074,
                )
            },
        }
    }

    /// Numeric "less than or equal" between two numbers of the same kind;
    /// false between numbers of different kinds.
    pub open spec fn le(self, other: Number) -> bool {
        match (self, other) {
            (Number::Float(a), Number::Float(b)) => a.le_spec(b),
            (Number::Unsigned(a), Number::Unsigned(b)) => a <= b,
            (Number::Signed(a), Number::Signed(b)) => a <= b,
            _ => false,
        }
    }
}

impl Number {
    /// The invariant of a parameter, read off the encodings: no bound and no
    /// initial value is "not a number", and the keys are in order.
    pub open spec fn in_order(self, mid: Number, high: Number) -> bool {
        match (self, mid, high) {
            (Number::Float(a), Number::Float(b), Number::Float(c)) => {
                &&& a.abs_bits() <= INFINITY && b.abs_bits() <= INFINITY && c.abs_bits()
                    <= INFINITY
                &&& a.key() <= b.key() <= c.key()
            },
            (Number::Unsigned(a), Number::Unsigned(b), Number::Unsigned(c)) => a <= b <= c,
            (Number::Signed(a), Number::Signed(b), Number::Signed(c)) => a <= b <= c,
            _ => false,
        }
    }
}

/// A parameter whose encodings are in order, and whose nudge is a positive
/// number by its encoding, keeps the invariant of a parameter.
pub proof fn lemma_in_order_is_well_formed(m: ParamModel)
    requires
        m.lo.in_order(m.default, m.hi),
        0 < m.speed.bits <= INFINITY,
    ensures
        m.wf(),
{
    lemma_read_off_key(m.speed, m.speed);
    match (m.lo, m.default, m.hi) {
        (Number::Float(a), Number::Float(b), Number::Float(c)) => {
            lemma_read_off_key(a, b);
            lemma_read_off_key(b, c);
            lemma_read_off_key(c, c);
        },
        _ => {},
    }
}

impl ParamModel {
    /// The invariant of a parameter: the initial value lies in the range, and
    /// a nudge has a positive size.
    pub open spec fn wf(self) -> bool {
        &&& self.lo.le(self.default)
        &&& self.default.le(self.hi)
        &&& !self.speed.nan()
        &&& self.speed.scaled() > 0
    }

    /// The model of a parameter of the floating kind, from bit patterns.
    pub open spec fn float(
        name: Seq<char>,
        default: u64,
        lo: u64,
        hi: u64,
        desc: Option<Seq<char>>,
        speed: u64,
    ) -> ParamModel {
        ParamModel {
            name,
            default: Number::Float(Double { bits: default }),
            lo: Number::Float(Double { bits: lo }),
            hi: Number::Float(Double { bits: hi }),
            desc,
            speed: Double { bits: speed },
        }
    }

    /// The model of a parameter of the unsigned kind.
    pub open spec fn unsigned(
        name: Seq<char>,
        default: u64,
        lo: u64,
        hi: u64,
        desc: Option<Seq<char>>,
        speed: u64,
    ) -> ParamModel {
        ParamModel {
            name,
            default: Number::Unsigned(default),
            lo: Number::Unsigned(lo),
            hi: Number::Unsigned(hi),
            desc,
            speed: Double { bits: speed },
        }
    }
}

impl View for MixedParam {
    type V = ParamModel;

    /// What this parameter says.
    open spec fn view(&self) -> ParamModel {
        match *self {
            MixedParam::Float { param } => ParamModel {
                name: param.name@,
                default: Number::Float(param.default),
                lo: Number::Float(param.range@.start),
                hi: Number::Float(param.range@.end),
                desc: hint_text(param.desc),
                speed: param.speed,
            },
            MixedParam::Unsigned { param } => ParamModel {
                name: param.name@,
                default: Number::Unsigned(param.default),
                lo: Number::Unsigned(param.range@.start),
                hi: Number::Unsigned(param.range@.end),
                desc: hint_text(param.desc),
                speed: param.speed,
            },
            MixedParam::_Signed { param } => ParamModel {
                name: param.name@,
                default: Number::Signed(param.default),
                lo: Number::Signed(param.range@.start),
                hi: Number::Signed(param.range@.end),
                desc: hint_text(param.desc),
                speed: param.speed,
            },
        }
    }
}

impl MixedParam {
    /// The name of the parameter.
    pub fn name(&self) -> (name: &String)
        ensures
            name@ == self@.name,
    {
        match self {
            MixedParam::Float { param } => &param.name,
            MixedParam::Unsigned { param } => &param.name,
            MixedParam::_Signed { param } => &param.name,
        }
    }

    /// Whether the parameter is a probability, which is known by its name
    /// `p`: such a parameter is better set on a scale from end to end of its
    /// range than nudged.
    pub fn is_probability(&self) -> (r: bool)
        ensures
            r == (self is Float && self@.name == "p"@),
    {
        match self {
            MixedParam::Float { param } => {
                let p: String = "p".to_owned();
                param.name == p
            },
            _ => false,
        }
    }

    /// The initial value of the parameter as a binary64 number.
    pub fn default_value(&self) -> (d: Double)
        ensures
            self@.default.shown_by(d),
    {
        match self {
            MixedParam::Float { param } => param.default,
            MixedParam::Unsigned { param } => Double::from_u64(param.default),
            MixedParam::_Signed { param } => Double::from_i64(param.default),
        }
    }

    /// A parameter of the floating kind, its numbers given by bit pattern.
    pub fn float(
        name: &str,
        default: u64,
        lo: u64,
        hi: u64,
        desc: Option<&str>,
        speed: u64,
    ) -> (p: MixedParam)
        ensures
            p@ == ParamModel::float(
                name@,
                default,
                lo,
                hi,
                match desc {
                    Some(s) => Some(s@),
                    None => None,
                },
                speed,
            ),
    {
        let desc: Option<String> = match desc {
            Some(s) => Some(s.to_owned()),
            None => None,
        };
        MixedParam::Float {
            param: Param {
                default: Double { bits: default },
                range: RangeInclusive::new(Double { bits: lo }, Double { bits: hi }),
                name: name.to_owned(),
                desc,
                speed: Double { bits: speed },
            },
        }
    }

    /// A parameter of the unsigned kind; the size of a nudge by bit pattern.
    pub fn unsigned(
        name: &str,
        default: u64,
        lo: u64,
        hi: u64,
        desc: Option<&str>,
        speed: u64,
    ) -> (p: MixedParam)
        ensures
            p@ == ParamModel::unsigned(
                name@,
                default,
                lo,
                hi,
                match desc {
                    Some(s) => Some(s@),
                    None => None,
                },
                speed,
            ),
    {
        let desc: Option<String> = match desc {
            Some(s) => Some(s.to_owned()),
            None => None,
        };
        MixedParam::Unsigned {
            param: Param {
                default,
                range: RangeInclusive::new(lo, hi),
                name: name.to_owned(),
                desc,
                speed: Double { bits: speed },
            },
        }
    }
}

/// The summary statistics of a distribution. Each is there only where the
/// distribution has it: an absent one was never made up.
#[derive(Clone, Copy, PartialEq, Debug)]
pub struct SummaryStats {
    pub mean: Option<Double>,
    pub variance: Option<Double>,
    pub std_dev: Option<Double>,
    pub entropy: Option<Double>,
    pub skewness: Option<Double>,
}

impl SummaryStats {
    /// The summary of a distribution with these moments: each is kept as it
    /// is, and nothing is computed.
    pub fn new(
        mean: Option<Double>,
        variance: Option<Double>,
        std_dev: Option<Double>,
        entropy: Option<Double>,
        skewness: Option<Double>,
    ) -> (stats: SummaryStats)
        ensures
            stats.mean == mean,
            stats.variance == variance,
            stats.std_dev == std_dev,
            stats.entropy == entropy,
            stats.skewness == skewness,
    {
        SummaryStats { mean, variance, std_dev, entropy, skewness }
    }
}

} // verus!

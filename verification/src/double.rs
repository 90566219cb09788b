//! Binary64 numbers held by their bit pattern.
//!
//! A `Double` is the 64-bit IEEE-754 encoding of a number: one sign bit, eleven
//! exponent bits and fifty-two fraction bits. The library never computes with
//! such numbers; it only classifies and orders them, which is exact integer
//! work on the encoding.

use vstd::arithmetic::div_mod::*;
use vstd::arithmetic::mul::*;
use vstd::arithmetic::power2::*;
use vstd::bits::*;
use vstd::prelude::*;

verus! {

/// Two to the power 52: the weight of the hidden bit of a normal number.
pub const HIDDEN_BIT: u64 = 0x10_0000_0000_0000;

/// Two to the power 63: the weight of the sign bit.
pub const SIGN_BIT: u64 = 0x8000_0000_0000_0000;

/// The exponent field of infinities and of values that are not numbers.
pub const TOP_EXPONENT: u64 = 2047;

/// The exponent field of the numbers from one up to, not including, two.
pub const EXPONENT_OF_ONE: u64 = 1023;

/// The exponent field from which on the unit in the last place is a whole
/// number: with it the fraction counts ones.
pub const EXPONENT_OF_WHOLE_STEPS: u64 = 1075;

/// The bit pattern of zero.
pub const ZERO: u64 = 0;

/// The bit pattern of one half.
pub const HALF: u64 = 0x3FE0_0000_0000_0000;

/// The bit pattern of one.
pub const ONE: u64 = 0x3FF0_0000_0000_0000;

/// The bit pattern of two.
pub const TWO: u64 = 0x4000_0000_0000_0000;

/// The bit pattern of two and a half.
pub const TWO_AND_A_HALF: u64 = 0x4004_0000_0000_0000;

/// The bit pattern of three.
pub const THREE: u64 = 0x4008_0000_0000_0000;

/// The bit pattern of four.
pub const FOUR: u64 = 0x4010_0000_0000_0000;

/// The bit pattern of five.
pub const FIVE: u64 = 0x4014_0000_0000_0000;

/// The bit pattern of one thousand.
pub const THOUSAND: u64 = 0x408F_4000_0000_0000;

/// The bit pattern of the binary64 number nearest to one tenth.
pub const TENTH: u64 = 0x3FB9_9999_9999_999A;

/// The bit pattern of the binary64 number nearest to one hundredth.
pub const HUNDREDTH: u64 = 0x3F84_7AE1_47AE_147B;

/// The bit pattern of the largest finite number.
pub const LARGEST: u64 = 0x7FEF_FFFF_FFFF_FFFF;

/// The bit pattern of the lowest finite number, minus the largest.
pub const LOWEST: u64 = 0xFFEF_FFFF_FFFF_FFFF;

/// The bit pattern of plus infinity.
pub const INFINITY: u64 = 0x7FF0_0000_0000_0000;

/// A binary64 number, held by its bit pattern.
///
/// `==` on this type compares bit patterns; the numeric comparisons are
/// [`Double::lt`], [`Double::le`] and [`Double::same_number`].
#[derive(Clone, Copy, Debug, PartialEq, Eq, Structural)]
pub struct Double {
    pub bits: u64,
}

impl Double {
    /// The encoding without its sign bit.
    pub open spec fn abs_bits(self) -> nat {
        (self.bits % SIGN_BIT) as nat
    }

    /// Whether the sign bit is set.
    pub open spec fn negative(self) -> bool {
        self.bits >= SIGN_BIT
    }

    /// The exponent field, between 0 and 2047.
    pub open spec fn exponent(self) -> nat {
        self.abs_bits() / (HIDDEN_BIT as nat)
    }

    /// The fraction field, below two to the power 52.
    pub open spec fn fraction(self) -> nat {
        self.abs_bits() % (HIDDEN_BIT as nat)
    }

    /// Whether the encoding stands for no number at all.
    pub open spec fn nan(self) -> bool {
        self.exponent() == TOP_EXPONENT && self.fraction() != 0
    }

    /// Whether the encoding stands for plus or minus infinity.
    pub open spec fn infinite(self) -> bool {
        self.exponent() == TOP_EXPONENT && self.fraction() == 0
    }

    /// Whether the encoding stands for a finite number.
    pub open spec fn finite(self) -> bool {
        self.exponent() < TOP_EXPONENT
    }

    /// The absolute value, counted in units of two to the power -1074 (the
    /// smallest positive binary64 number), so that every finite number has an
    /// integer magnitude. An infinity gets the magnitude that the next
    /// exponent step would have, which is above every finite magnitude.
    /// Meaningless for an encoding that is not a number.
    pub open spec fn magnitude(self) -> nat {
        if self.exponent() == 0 {
            self.fraction()
        } else {
            (HIDDEN_BIT as nat + self.fraction()) * pow2((self.exponent() - 1) as nat)
        }
    }

    /// The signed value in the units of [`Double::magnitude`].
    pub open spec fn scaled(self) -> int {
        if self.negative() {
            -(self.magnitude() as int)
        } else {
            self.magnitude() as int
        }
    }

    /// The encoding read as a sign and a size: the encoding without its sign
    /// bit, negated where the sign bit is set. Numbers are ordered as their
    /// keys are, see [`lemma_order_by_key`].
    pub open spec fn key(self) -> int {
        if self.negative() {
            -(self.abs_bits() as int)
        } else {
            self.abs_bits() as int
        }
    }

    /// Whether this is the whole number `n`.
    pub open spec fn is_whole(self, n: nat) -> bool {
        !self.nan() && self.scaled() == n * pow2(1074)
    }

    /// Whether this is exactly the fraction `num / den`.
    pub open spec fn is_ratio(self, num: nat, den: nat) -> bool {
        !self.nan() && self.scaled() * den == num * pow2(1074)
    }

    /// Whether this is a positive number of the usual kind (neither zero nor
    /// of the smallest, evenly spaced ones) that lies within half a step of
    /// its own spacing of the fraction `num / den`: what comes of writing
    /// that fraction as a binary64 number.
    pub open spec fn rounds(self, num: nat, den: nat) -> bool {
        &&& self.finite()
        &&& !self.negative()
        &&& self.exponent() >= 1
        &&& 2 * vstd::math::abs(self.magnitude() * den - num * pow2(1074)) <= den * pow2(
            (self.exponent() - 1) as nat,
        )
    }

    /// Whether this is a whole number from zero to below two to the power 64.
    pub open spec fn whole(self) -> bool {
        exists|n: nat| n <= u64::MAX && #[trigger] self.is_whole(n)
    }

    /// The spacing of the binary64 numbers around the whole number `n`: one
    /// below two to the power 53, and doubling with every further bit of `n`.
    pub open spec fn spacing(n: nat) -> nat
        decreases n,
    {
        if n < 2 * HIDDEN_BIT {
            1
        } else {
            2 * Double::spacing(n / 2)
        }
    }

    /// The multiple of `spacing(n)` nearest to `n`; of two that are equally
    /// near, the even multiple. Below two to the power 53 this is `n` itself.
    pub open spec fn nearest(n: nat) -> nat {
        let unit = Double::spacing(n);
        let q = n / unit;
        let rest = n % unit;
        if 2 * rest < unit || (2 * rest == unit && q % 2 == 0) {
            q * unit
        } else {
            (q + 1) * unit
        }
    }

    /// Numeric "less than": false whenever either side is not a number.
    pub open spec fn lt_spec(self, other: Double) -> bool {
        !self.nan() && !other.nan() && self.scaled() < other.scaled()
    }

    /// Numeric "less than or equal": false whenever either side is not a number.
    pub open spec fn le_spec(self, other: Double) -> bool {
        !self.nan() && !other.nan() && self.scaled() <= other.scaled()
    }

    /// Numeric equality: false whenever either side is not a number, and true
    /// of the two zeros.
    pub open spec fn same_number_spec(self, other: Double) -> bool {
        !self.nan() && !other.nan() && self.scaled() == other.scaled()
    }

    /// The number with the given bit pattern.
    pub fn from_bits(bits: u64) -> (d: Double)
        ensures
            d.bits == bits,
    {
        Double { bits }
    }

    /// The bit pattern of this number.
    pub fn to_bits(&self) -> (bits: u64)
        ensures
            bits == self.bits,
    {
        self.bits
    }

    fn abs(&self) -> (a: u64)
        ensures
            a == self.abs_bits(),
            a < SIGN_BIT,
    {
        self.bits % SIGN_BIT
    }

    /// Whether the sign bit is set (true of minus zero too).
    pub fn is_sign_negative(&self) -> (r: bool)
        ensures
            r == self.negative(),
    {
        self.bits >= SIGN_BIT
    }

    /// Whether this is not a number.
    pub fn is_nan(&self) -> (r: bool)
        ensures
            r == self.nan(),
    {
        self.abs() > TOP_EXPONENT * HIDDEN_BIT
    }

    /// Whether this is plus or minus infinity.
    pub fn is_infinite(&self) -> (r: bool)
        ensures
            r == self.infinite(),
    {
        self.abs() == TOP_EXPONENT * HIDDEN_BIT
    }

    /// Whether this is a finite number.
    pub fn is_finite(&self) -> (r: bool)
        ensures
            r == self.finite(),
    {
        self.abs() < TOP_EXPONENT * HIDDEN_BIT
    }

    /// Numeric "less than", as IEEE-754 orders numbers: minus zero is not below
    /// plus zero, and nothing is below or above a value that is not a number.
    pub fn lt(&self, other: &Double) -> (r: bool)
        ensures
            r == self.lt_spec(*other),
    {
        if self.is_nan() || other.is_nan() {
            return false;
        }
        let a: u64 = self.abs();
        let b: u64 = other.abs();
        proof {
            lemma_magnitude_order(*self, *other);
            lemma_magnitude_order(*other, *self);
        }
        if self.is_sign_negative() {
            if other.is_sign_negative() {
                b < a
            } else {
                a != 0 || b != 0
            }
        } else {
            if other.is_sign_negative() {
                false
            } else {
                a < b
            }
        }
    }

    /// Numeric "less than or equal", as IEEE-754 orders numbers.
    pub fn le(&self, other: &Double) -> (r: bool)
        ensures
            r == self.le_spec(*other),
    {
        if self.is_nan() || other.is_nan() {
            return false;
        }
        let a: u64 = self.abs();
        let b: u64 = other.abs();
        proof {
            lemma_magnitude_order(*self, *other);
            lemma_magnitude_order(*other, *self);
        }
        if self.is_sign_negative() {
            if other.is_sign_negative() {
                b <= a
            } else {
                true
            }
        } else {
            if other.is_sign_negative() {
                a == 0 && b == 0
            } else {
                a <= b
            }
        }
    }

    /// Numeric equality, as IEEE-754 defines it: the two zeros are equal, and a
    /// value that is not a number equals nothing.
    pub fn same_number(&self, other: &Double) -> (r: bool)
        ensures
            r == self.same_number_spec(*other),
    {
        if self.is_nan() || other.is_nan() {
            return false;
        }
        let a: u64 = self.abs();
        let b: u64 = other.abs();
        proof {
            lemma_magnitude_order(*self, *other);
            lemma_magnitude_order(*other, *self);
        }
        if self.is_sign_negative() == other.is_sign_negative() {
            a == b
        } else {
            a == 0 && b == 0
        }
    }

    /// Whether this is a number above zero (plus infinity counts).
    pub fn is_positive(&self) -> (r: bool)
        ensures
            r == (!self.nan() && self.scaled() > 0),
    {
        proof {
            lemma_magnitude_order(Double { bits: 0 }, *self);
        }
        !self.is_nan() && !self.is_sign_negative() && self.abs() != 0
    }

    /// The binary64 number nearest to `n`, ties going to the even fraction:
    /// exactly `n` below two to the power 53.
    pub fn from_u64(n: u64) -> (r: Double)
        ensures
            !r.negative(),
            r.is_whole(Double::nearest(n as nat)),
    {
        if n == 0 {
            proof {
                lemma_nearest_is_exact(0);
            }
            return Double { bits: 0 };
        }
        let mut m: u64 = n;
        let mut e: u64 = EXPONENT_OF_WHOLE_STEPS;
        proof {
            lemma2_to64();
            lemma2_to64_rest();
        }
        if n < 2 * HIDDEN_BIT {
            while m < HIDDEN_BIT
                invariant
                    0 < m < 2 * HIDDEN_BIT,
                    EXPONENT_OF_ONE <= e <= EXPONENT_OF_WHOLE_STEPS,
                    m * pow2((e - 1) as nat) == n * pow2(1074),
                    m >= pow2((EXPONENT_OF_WHOLE_STEPS - e) as nat),
                decreases 2 * HIDDEN_BIT - m,
            {
                proof {
                    lemma2_to64_rest();
                    lemma_pow2_unfold((e - 1) as nat);
                    lemma_pow2_unfold((EXPONENT_OF_WHOLE_STEPS - e + 1) as nat);
                    lemma_mul_is_associative(m as int, 2, pow2((e - 2) as nat) as int);
                }
                m = 2 * m;
                e = e - 1;
            }
            let r = Double { bits: e * HIDDEN_BIT + (m - HIDDEN_BIT) };
            assert(r.exponent() == e && r.fraction() == m - HIDDEN_BIT);
            proof {
                lemma_nearest_is_exact(n as nat);
            }
            r
        } else {
            let mut unit: u64 = 1;
            while m >= 2 * HIDDEN_BIT
                invariant
                    HIDDEN_BIT <= m,
                    EXPONENT_OF_WHOLE_STEPS <= e <= EXPONENT_OF_WHOLE_STEPS + 11,
                    unit == pow2((e - EXPONENT_OF_WHOLE_STEPS) as nat),
                    0 < unit <= 2048,
                    m == n / unit,
                    Double::spacing(n as nat) == unit * Double::spacing(m as nat),
                decreases m,
            {
                proof {
                    let k = (e - EXPONENT_OF_WHOLE_STEPS) as nat;
                    lemma_pow2_unfold(k + 1);
                    lemma_div_denominator(n as int, unit as int, 2);
                    lemma_fundamental_div_mod(n as int, unit as int);
                    lemma2_to64();
                    if k == 11 {
                        assert(unit * m >= 0x1_0000_0000_0000_0000) by (nonlinear_arith)
                            requires
                                m >= 0x20_0000_0000_0000,
                                unit == 2048,
                        ;
                    } else if k < 10 {
                        lemma_pow2_strictly_increases(k + 1, 11);
                    }
                    lemma_mul_is_associative(
                        unit as int,
                        2,
                        Double::spacing((m / 2) as nat) as int,
                    );
                }
                m = m / 2;
                unit = unit * 2;
                e = e + 1;
            }
            let rest: u64 = n % unit;
            let up: bool = 2 * rest > unit || (2 * rest == unit && m % 2 == 1);
            let ghost q = m as int;
            let ghost step = pow2((e - 1) as nat) as int;
            let ghost goal = Double::nearest(n as nat) as int;
            proof {
                let k = (e - EXPONENT_OF_WHOLE_STEPS) as nat;
                assert(Double::spacing(m as nat) == 1);
                assert(Double::spacing(n as nat) == unit) by {
                    lemma_mul_basics(unit as int);
                }
                assert(goal == if up {
                    (q + 1) * unit
                } else {
                    q * unit
                });
                lemma_pow2_adds(k, 1074);
                assert(step == unit * pow2(1074));
                lemma_mul_is_associative(q, unit as int, pow2(1074) as int);
                lemma_mul_is_associative(q + 1, unit as int, pow2(1074) as int);
                assert(goal * pow2(1074) == if up {
                    (q + 1) * step
                } else {
                    q * step
                });
            }
            if up {
                m = m + 1;
                if m == 2 * HIDDEN_BIT {
                    m = HIDDEN_BIT;
                    e = e + 1;
                    proof {
                        lemma_pow2_unfold((e - 1) as nat);
                        assert(HIDDEN_BIT * pow2((e - 1) as nat) == (q + 1) * step)
                            by (nonlinear_arith)
                            requires
                                q + 1 == 2 * HIDDEN_BIT,
                                pow2((e - 1) as nat) == 2 * step,
                        ;
                    }
                }
            }
            assert(m * pow2((e - 1) as nat) == goal * pow2(1074));
            let r = Double { bits: e * HIDDEN_BIT + (m - HIDDEN_BIT) };
            assert(r.exponent() == e && r.fraction() == m - HIDDEN_BIT);
            r
        }
    }

    /// The binary64 number nearest to `i`, ties going to the even fraction.
    pub fn from_i64(i: i64) -> (r: Double)
        ensures
            !r.nan(),
            r.negative() == (i < 0),
            r.magnitude() == Double::nearest(vstd::math::abs(i as int) as nat) * pow2(1074),
    {
        if i >= 0 {
            Double::from_u64(i as u64)
        } else {
            let size: u64 = if i == i64::MIN {
                SIGN_BIT
            } else {
                (-i) as u64
            };
            let d = Double::from_u64(size);
            Double { bits: d.bits + SIGN_BIT }
        }
    }

    /// The whole number that this value is, if it is one and fits in 64 bits.
    /// Nothing is rounded or clamped: a fraction, a negative number, a number
    /// of two to the power 64 or more, an infinity and a value that is not a
    /// number all give `None`. Minus zero is zero.
    pub fn to_u64(&self) -> (r: Option<u64>)
        ensures
            match r {
                Some(n) => self.is_whole(n as nat),
                None => forall|n: nat| n <= u64::MAX ==> !self.is_whole(n),
            },
            r.is_some() == self.whole(),
    {
        if self.is_nan() {
            return None;
        }
        let a: u64 = self.abs();
        proof {
            lemma_magnitude_order(Double { bits: 0 }, *self);
            lemma_pow2_pos(1074);
        }
        if a == 0 {
            assert(self.is_whole(0));
            assert(self.whole());
            return Some(0);
        }
        if self.is_sign_negative() {
            assert forall|n: nat| n <= u64::MAX implies !self.is_whole(n) by {
                lemma_mul_nonnegative(n as int, pow2(1074) as int);
            }
            return None;
        }
        let e: u64 = a / HIDDEN_BIT;
        let f: u64 = a % HIDDEN_BIT;
        if e < EXPONENT_OF_ONE {
            proof {
                lemma_below_one(*self);
                assert forall|n: nat| n <= u64::MAX implies !self.is_whole(n) by {
                    if n > 0 {
                        lemma_mul_inequality(1, n as int, pow2(1074) as int);
                    }
                }
            }
            return None;
        }
        if e > EXPONENT_OF_WHOLE_STEPS + 11 {
            proof {
                lemma_beyond_64_bits(*self);
                assert forall|n: nat| n <= u64::MAX implies !self.is_whole(n) by {
                    lemma2_to64();
                    lemma_mul_strict_inequality(n as int, pow2(64) as int, pow2(1074) as int);
                }
            }
            return None;
        }
        let m: u64 = HIDDEN_BIT + f;
        if e >= EXPONENT_OF_WHOLE_STEPS {
            let s: u64 = e - EXPONENT_OF_WHOLE_STEPS;
            proof {
                lemma2_to64();
                if s < 11 {
                    lemma_pow2_strictly_increases(s as nat, 11);
                }
                assert(m * pow2(s as nat) <= u64::MAX) by (nonlinear_arith)
                    requires
                        m < 0x20_0000_0000_0000,
                        pow2(s as nat) <= 2048,
                ;
                lemma_u64_shl_is_mul(m, s);
                lemma_pow2_adds(s as nat, 1074);
                lemma_mul_is_associative(m as int, pow2(s as nat) as int, pow2(1074) as int);
            }
            let n: u64 = m << s;
            assert(self.is_whole(n as nat));
            Some(n)
        } else {
            let s: u64 = EXPONENT_OF_WHOLE_STEPS - e;
            proof {
                lemma2_to64();
                lemma2_to64_rest();
                lemma_pow2_strictly_increases(s as nat, 63);
                lemma_u64_shl_is_mul(1, s);
                lemma_u64_shr_is_div(m, s);
                lemma_pow2_pos(s as nat);
                lemma_pow2_pos((e - 1) as nat);
                lemma_pow2_adds(s as nat, (e - 1) as nat);
            }
            let unit: u64 = 1u64 << s;
            if m % unit != 0 {
                proof {
                    assert forall|n: nat| n <= u64::MAX implies !self.is_whole(n) by {
                        if self.is_whole(n) {
                            let ps = pow2(s as nat) as int;
                            let pe = pow2((e - 1) as nat) as int;
                            lemma_mul_is_associative(n as int, ps, pe);
                            assert(m == n * ps) by (nonlinear_arith)
                                requires
                                    m * pe == (n * ps) * pe,
                                    pe > 0,
                            ;
                            lemma_mod_multiples_basic(n as int, ps);
                        }
                    }
                }
                None
            } else {
                proof {
                    let ps = pow2(s as nat) as int;
                    let pe = pow2((e - 1) as nat) as int;
                    lemma_fundamental_div_mod(m as int, ps);
                    lemma_mul_is_associative(m as int / ps, ps, pe);
                }
                let n: u64 = m >> s;
                assert(self.is_whole(n as nat));
                Some(n)
            }
        }
    }

    /// Whether this is a number that is zero or above (minus zero counts).
    pub fn is_non_negative(&self) -> (r: bool)
        ensures
            r == (!self.nan() && self.scaled() >= 0),
    {
        proof {
            lemma_magnitude_order(Double { bits: 0 }, *self);
        }
        !self.is_nan() && (!self.is_sign_negative() || self.abs() == 0)
    }
}

/// Numbers are ordered as their keys are: comparing two numbers is comparing
/// two integers read off their encodings.
pub proof fn lemma_order_by_key(a: Double, b: Double)
    ensures
        a.scaled() < b.scaled() <==> a.key() < b.key(),
        a.scaled() == b.scaled() <==> a.key() == b.key(),
{
    lemma_magnitude_order(a, b);
    lemma_magnitude_order(b, a);
}

/// What the encoding without its sign says of a number: where it stands
/// against zero, and the two order relations between numbers, all read off
/// the keys.
pub proof fn lemma_read_off_key(a: Double, b: Double)
    ensures
        a.nan() <==> a.abs_bits() > INFINITY,
        a.finite() <==> a.abs_bits() < INFINITY,
        a.scaled() > 0 <==> a.key() > 0,
        a.scaled() >= 0 <==> a.key() >= 0,
        a.lt_spec(b) <==> !a.nan() && !b.nan() && a.key() < b.key(),
        a.le_spec(b) <==> !a.nan() && !b.nan() && a.key() <= b.key(),
{
    lemma_order_by_key(a, b);
    lemma_order_by_key(Double { bits: ZERO }, a);
}

/// A number is the fraction `num / den` where its fields say so: with the
/// exponent field `s` steps below that of whole steps, the fraction field
/// with its hidden bit, times `den`, is `num` times two to the power `s`.
pub proof fn lemma_ratio_by_fields(d: Double, num: nat, den: nat, s: nat)
    requires
        !d.negative(),
        1 <= d.exponent() < TOP_EXPONENT,
        d.exponent() + s == EXPONENT_OF_WHOLE_STEPS,
        (HIDDEN_BIT + d.fraction()) * den == num * pow2(s),
    ensures
        d.is_ratio(num, den),
{
    let m = (HIDDEN_BIT + d.fraction()) as int;
    let step = pow2((d.exponent() - 1) as nat) as int;
    let part = pow2(s) as int;
    lemma_pow2_adds(s, (d.exponent() - 1) as nat);
    assert((m * step) * den == num * (part * step)) by (nonlinear_arith)
        requires
            m * den == num * part,
    ;
}

/// A number rounds the fraction `num / den` where its fields say so: with the
/// exponent field `s` steps below that of whole steps, the fraction field
/// with its hidden bit, times `den`, is within half of `den` of `num` times
/// two to the power `s`.
pub proof fn lemma_rounds_by_fields(d: Double, num: nat, den: nat, s: nat)
    requires
        !d.negative(),
        1 <= d.exponent() < TOP_EXPONENT,
        d.exponent() + s == EXPONENT_OF_WHOLE_STEPS,
        2 * vstd::math::abs((HIDDEN_BIT + d.fraction()) * den - num * pow2(s)) <= den,
    ensures
        d.rounds(num, den),
{
    let m = (HIDDEN_BIT + d.fraction()) as int;
    let step = pow2((d.exponent() - 1) as nat) as int;
    let part = pow2(s) as int;
    lemma_pow2_adds(s, (d.exponent() - 1) as nat);
    lemma_pow2_pos((d.exponent() - 1) as nat);
    let off = m * den - num * part;
    assert((m * step) * den - num * (part * step) == off * step) by (nonlinear_arith)
        requires
            off == m * den - num * part,
    ;
    if off >= 0 {
        assert(2 * (off * step) <= den * step) by (nonlinear_arith)
            requires
                2 * off <= den,
                0 <= off,
                step > 0,
        ;
        assert(off * step >= 0) by (nonlinear_arith)
            requires
                0 <= off,
                step > 0,
        ;
    } else {
        assert(2 * (-(off * step)) <= den * step) by (nonlinear_arith)
            requires
                2 * (-off) <= den,
                off < 0,
                step > 0,
        ;
        assert(off * step < 0) by (nonlinear_arith)
            requires
                off < 0,
                step > 0,
        ;
    }
}

/// The named encodings are the numbers that their names say: the whole
/// numbers and the halves exactly, a tenth and a hundredth as near as a
/// binary64 number comes to them, and the largest and the lowest finite number
/// with every finite number between them.
pub proof fn lemma_named_numbers()
    ensures
        (Double { bits: ZERO }).is_whole(0),
        (Double { bits: ONE }).is_whole(1),
        (Double { bits: TWO }).is_whole(2),
        (Double { bits: THREE }).is_whole(3),
        (Double { bits: FOUR }).is_whole(4),
        (Double { bits: FIVE }).is_whole(5),
        (Double { bits: THOUSAND }).is_whole(1000),
        (Double { bits: HALF }).is_ratio(1, 2),
        (Double { bits: TWO_AND_A_HALF }).is_ratio(5, 2),
        (Double { bits: TENTH }).rounds(1, 10),
        (Double { bits: HUNDREDTH }).rounds(1, 100),
        (Double { bits: INFINITY }).infinite() && !(Double { bits: INFINITY }).negative(),
        forall|d: Double| #[trigger]
            d.finite() ==> (Double { bits: LOWEST }).le_spec(d) && d.le_spec(
                Double { bits: LARGEST },
            ),
{
    lemma2_to64();
    lemma2_to64_rest();
    lemma_ratio_by_fields(Double { bits: ONE }, 1, 1, 52);
    lemma_ratio_by_fields(Double { bits: TWO }, 2, 1, 51);
    lemma_ratio_by_fields(Double { bits: THREE }, 3, 1, 51);
    lemma_ratio_by_fields(Double { bits: FOUR }, 4, 1, 50);
    lemma_ratio_by_fields(Double { bits: FIVE }, 5, 1, 50);
    lemma_ratio_by_fields(Double { bits: THOUSAND }, 1000, 1, 43);
    lemma_ratio_by_fields(Double { bits: HALF }, 1, 2, 53);
    lemma_ratio_by_fields(Double { bits: TWO_AND_A_HALF }, 5, 2, 51);
    lemma_rounds_by_fields(Double { bits: TENTH }, 1, 10, 56);
    lemma_rounds_by_fields(Double { bits: HUNDREDTH }, 1, 100, 59);
    assert forall|d: Double| #[trigger] d.finite() implies (Double { bits: LOWEST }).le_spec(d)
        && d.le_spec(Double { bits: LARGEST }) by {
        lemma_read_off_key(Double { bits: LOWEST }, d);
        lemma_read_off_key(d, Double { bits: LARGEST });
        lemma_read_off_key(Double { bits: LARGEST }, Double { bits: LARGEST });
    }
}

/// Below two to the power 53 every whole number is a binary64 number, so the
/// nearest one is the number itself.
pub proof fn lemma_nearest_is_exact(n: nat)
    requires
        n < 2 * HIDDEN_BIT,
    ensures
        Double::nearest(n) == n,
{
    assert(Double::spacing(n) == 1);
    assert(n / 1 == n && n % 1 == 0);
}

/// A positive number with an exponent field below that of one is below one.
proof fn lemma_below_one(d: Double)
    requires
        d.exponent() < EXPONENT_OF_ONE,
    ensures
        d.magnitude() < pow2(1074),
{
    let h = HIDDEN_BIT as nat;
    let e = d.exponent();
    let f = d.fraction();
    lemma2_to64_rest();
    if e == 0 {
        lemma_pow2_strictly_increases(52, 1074);
    } else {
        let p = pow2((e - 1) as nat);
        lemma_pow2_pos((e - 1) as nat);
        if e < 1022 {
            lemma_pow2_strictly_increases((e - 1) as nat, 1021);
        }
        lemma_pow2_adds(53, 1021);
        assert((h + f) * p < pow2(53) * pow2(1021)) by (nonlinear_arith)
            requires
                h + f < pow2(53),
                0 < p <= pow2(1021),
        {
        }
    }
}

/// A number with an exponent field above that of two to the power 63 is at
/// least two to the power 64.
proof fn lemma_beyond_64_bits(d: Double)
    requires
        d.exponent() > EXPONENT_OF_WHOLE_STEPS + 11,
    ensures
        d.magnitude() >= pow2(64) * pow2(1074),
{
    let h = HIDDEN_BIT as nat;
    let e = d.exponent();
    let f = d.fraction();
    let p = pow2((e - 1) as nat);
    lemma2_to64_rest();
    if e > 1087 {
        lemma_pow2_strictly_increases(1086, (e - 1) as nat);
    }
    lemma_pow2_adds(52, 1086);
    lemma_pow2_adds(64, 1074);
    assert((h + f) * p >= pow2(52) * pow2(1086)) by (nonlinear_arith)
        requires
            h == pow2(52),
            p >= pow2(1086),
    {
    }
}

/// The magnitude is a strictly increasing function of the encoding without its
/// sign: of two encodings the one with the larger exponent field, or with the
/// same exponent and the larger fraction, stands for the larger absolute value.
pub proof fn lemma_magnitude_order(a: Double, b: Double)
    ensures
        a.abs_bits() < b.abs_bits() ==> a.magnitude() < b.magnitude(),
        a.abs_bits() == b.abs_bits() ==> a.magnitude() == b.magnitude(),
        a.abs_bits() == 0 <==> a.magnitude() == 0,
{
    let h = HIDDEN_BIT as nat;
    let ea = a.exponent();
    let eb = b.exponent();
    let fa = a.fraction();
    let fb = b.fraction();
    if ea > 0 {
        lemma_pow2_pos((ea - 1) as nat);
        lemma_mul_strictly_positive((h + fa) as int, pow2((ea - 1) as nat) as int);
    }
    if a.abs_bits() < b.abs_bits() {
        if ea == eb {
            if ea > 0 {
                lemma_mul_strict_inequality(
                    (h + fa) as int,
                    (h + fb) as int,
                    pow2((ea - 1) as nat) as int,
                );
            }
        } else {
            assert(ea < eb) by {
                if ea > eb {
                    assert(a.abs_bits() >= ea * h);
                    assert(b.abs_bits() < (eb + 1) * h);
                    assert((eb + 1) * h <= ea * h) by (nonlinear_arith)
                        requires
                            eb + 1 <= ea,
                    ;
                }
            }
            let pb = pow2((eb - 1) as nat);
            lemma_pow2_pos((eb - 1) as nat);
            if ea == 0 {
                assert((h + fb) * pb >= h) by (nonlinear_arith)
                    requires
                        pb >= 1,
                ;
            } else {
                let pa = pow2((ea - 1) as nat);
                assert(pb >= 2 * pa) by {
                    lemma_pow2_unfold(ea);
                    if ea < eb - 1 {
                        lemma_pow2_strictly_increases(ea, (eb - 1) as nat);
                    }
                }
                assert((h + fa) * pa < (h + fb) * pb) by (nonlinear_arith)
                    requires
                        fa < h,
                        pb >= 2 * pa,
                        pa > 0,
                ;
            }
        }
    }
}

} // verus!

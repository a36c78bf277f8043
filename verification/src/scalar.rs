//! Binary32 quantities held by their bit pattern.
//!
//! A [`Scalar`] is the 32 bits of an IEEE-754 single-precision number: one
//! sign bit, eight exponent bits, twenty-three fraction bits. The functions
//! here decide order and integer truncation from those bits alone.

use vstd::prelude::*;
use vstd::arithmetic::div_mod::{lemma_div_by_multiple, lemma_div_multiples_vanish_quotient};
use vstd::arithmetic::power2::{
    lemma2_to64, lemma_pow2_adds, lemma_pow2_pos, lemma_pow2_strictly_increases, lemma_pow2_unfold,
    pow2,
};
use vstd::bits::{lemma_u32_shl_is_mul, lemma_u32_shr_is_div};

verus! {

/// The sign bit of a binary32 pattern.
pub const SIGN_BIT: u32 = 0x8000_0000;

/// The magnitude bits of positive infinity; every larger magnitude is a NaN.
pub const INFINITY_BITS: u32 = 0x7f80_0000;

/// Two to the power twenty-three: the weight of the implicit leading bit.
pub const HIDDEN_BIT: u32 = 0x0080_0000;

/// The bits of `0.0`.
pub const ZERO_BITS: u32 = 0x0000_0000;

/// The bits of `0.5`.
pub const HALF_BITS: u32 = 0x3f00_0000;

/// The bits of `1.0`.
pub const ONE_BITS: u32 = 0x3f80_0000;

/// A binary32 value, identified by its bit pattern.
///
/// `==` on two scalars compares bit patterns; [`Scalar::lt`] and
/// [`Scalar::gt`] compare the values the patterns stand for.
#[derive(Clone, Copy, PartialEq, Eq, Structural, Debug)]
pub struct Scalar {
    pub bits: u32,
}

impl Scalar {
    /// The pattern with the sign bit cleared.
    pub open spec fn magnitude(self) -> u32 {
        if self.bits >= SIGN_BIT {
            (self.bits - SIGN_BIT) as u32
        } else {
            self.bits
        }
    }

    /// Whether the sign bit is set.
    pub open spec fn is_negative(self) -> bool {
        self.bits >= SIGN_BIT
    }

    /// Whether the pattern is not a number.
    pub open spec fn spec_is_nan(self) -> bool {
        self.magnitude() > INFINITY_BITS
    }

    /// Position of the value on the number line of patterns: the magnitude
    /// for a value with a clear sign bit, its negation otherwise. Both zeros
    /// have rank zero, and among patterns that are numbers a smaller value
    /// has a smaller rank (see [`lemma_rank_orders_values`]).
    pub open spec fn rank(self) -> int {
        if self.is_negative() {
            -(self.magnitude() as int)
        } else {
            self.magnitude() as int
        }
    }

    /// `self < other` as binary32 values: false whenever either is a NaN.
    pub open spec fn spec_lt(self, other: Scalar) -> bool {
        !self.spec_is_nan() && !other.spec_is_nan() && self.rank() < other.rank()
    }

    /// `self > other` as binary32 values: false whenever either is a NaN.
    pub open spec fn spec_gt(self, other: Scalar) -> bool {
        other.spec_lt(self)
    }

    /// `self == other` as binary32 values: the two zeros are equal, a NaN
    /// equals nothing.
    pub open spec fn spec_same_value(self, other: Scalar) -> bool {
        !self.spec_is_nan() && !other.spec_is_nan() && self.rank() == other.rank()
    }

    /// Whether the value lies in the closed interval from 0 to 1 (see
    /// [`lemma_unit_interval`]).
    pub open spec fn in_unit(self) -> bool {
        !self.spec_is_nan() && 0 <= self.rank() <= ONE_BITS
    }

    /// The biased exponent that scales the significand: the exponent field,
    /// or 1 for a subnormal pattern.
    pub open spec fn exponent(self) -> nat {
        let field = self.magnitude() / HIDDEN_BIT;
        if field == 0 {
            1
        } else {
            field as nat
        }
    }

    /// The significand as an integer: the fraction field, with the implicit
    /// leading bit unless the pattern is subnormal.
    pub open spec fn significand(self) -> nat {
        let field = self.magnitude() / HIDDEN_BIT;
        let fraction = self.magnitude() % HIDDEN_BIT;
        if field == 0 {
            fraction as nat
        } else {
            (HIDDEN_BIT + fraction) as nat
        }
    }

    /// The absolute value times 2^149, which is an integer for every pattern
    /// that is a number: the significand scaled by the exponent. For an
    /// infinity it is a number beyond that of every finite value.
    pub open spec fn scaled_magnitude(self) -> nat {
        self.significand() * pow2((self.exponent() - 1) as nat)
    }

    /// The value times 2^149.
    pub open spec fn scaled(self) -> int {
        if self.is_negative() {
            -(self.scaled_magnitude() as int)
        } else {
            self.scaled_magnitude() as int
        }
    }

    /// The integer part of the absolute value.
    pub open spec fn whole(self) -> nat {
        self.scaled_magnitude() / pow2(149)
    }

    /// The value rounded toward zero and saturated to the range of `u32`;
    /// a NaN gives zero.
    pub open spec fn truncated(self) -> u32 {
        if self.spec_is_nan() || self.is_negative() {
            0
        } else if self.whole() > u32::MAX {
            u32::MAX
        } else {
            self.whole() as u32
        }
    }

    /// The value nearest to `self` within the closed interval from 0 to 1;
    /// a NaN gives `fallback`.
    pub open spec fn spec_clamp_unit(self, fallback: Scalar) -> Scalar {
        if self.spec_is_nan() {
            fallback
        } else if self.rank() < 0 {
            Scalar { bits: ZERO_BITS }
        } else if self.rank() > ONE_BITS {
            Scalar { bits: ONE_BITS }
        } else {
            self
        }
    }

    /// The scalar with the given bit pattern.
    pub fn from_bits(bits: u32) -> (r: Scalar)
        ensures
            r.bits == bits,
    {
        Scalar { bits }
    }

    /// The bit pattern.
    pub fn to_bits(self) -> (r: u32)
        ensures
            r == self.bits,
    {
        self.bits
    }

    /// The value `0.0`.
    pub fn zero() -> (r: Scalar)
        ensures
            r.bits == ZERO_BITS,
    {
        Scalar { bits: ZERO_BITS }
    }

    /// The value `0.5`.
    pub fn half() -> (r: Scalar)
        ensures
            r.bits == HALF_BITS,
    {
        Scalar { bits: HALF_BITS }
    }

    /// The value `1.0`.
    pub fn one() -> (r: Scalar)
        ensures
            r.bits == ONE_BITS,
    {
        Scalar { bits: ONE_BITS }
    }

    fn magnitude_bits(self) -> (r: u32)
        ensures
            r == self.magnitude(),
    {
        if self.bits >= SIGN_BIT {
            self.bits - SIGN_BIT
        } else {
            self.bits
        }
    }

    fn rank_of(self) -> (r: i64)
        ensures
            r == self.rank(),
    {
        let m: u32 = self.magnitude_bits();
        if self.bits >= SIGN_BIT {
            -(m as i64)
        } else {
            m as i64
        }
    }

    /// Whether the pattern is not a number.
    #[verifier::when_used_as_spec(spec_is_nan)]
    pub fn is_nan(self) -> (r: bool)
        ensures
            r == self.spec_is_nan(),
    {
        self.magnitude_bits() > INFINITY_BITS
    }

    /// `self < other` as binary32 values.
    #[verifier::when_used_as_spec(spec_lt)]
    pub fn lt(self, other: Scalar) -> (r: bool)
        ensures
            r == self.spec_lt(other),
    {
        !self.is_nan() && !other.is_nan() && self.rank_of() < other.rank_of()
    }

    /// `self > other` as binary32 values.
    #[verifier::when_used_as_spec(spec_gt)]
    pub fn gt(self, other: Scalar) -> (r: bool)
        ensures
            r == self.spec_gt(other),
    {
        other.lt(self)
    }

    /// `self == other` as binary32 values.
    #[verifier::when_used_as_spec(spec_same_value)]
    pub fn same_value(self, other: Scalar) -> (r: bool)
        ensures
            r == self.spec_same_value(other),
    {
        !self.is_nan() && !other.is_nan() && self.rank_of() == other.rank_of()
    }

    /// Brings the value into the closed interval from 0 to 1: a value below
    /// zero becomes `0.0`, one above one becomes `1.0`, a NaN becomes
    /// `fallback`, and anything else is returned as it is.
    #[verifier::when_used_as_spec(spec_clamp_unit)]
    pub fn clamp_unit(self, fallback: Scalar) -> (r: Scalar)
        ensures
            r == self.spec_clamp_unit(fallback),
            fallback.in_unit() ==> r.in_unit(),
    {
        if self.is_nan() {
            fallback
        } else if self.lt(Scalar::zero()) {
            Scalar::zero()
        } else if self.gt(Scalar::one()) {
            Scalar::one()
        } else {
            self
        }
    }

    /// The value rounded toward zero as an unsigned 32-bit integer: zero for
    /// a NaN or a negative value, `u32::MAX` for a value of 2^32 or more.
    pub fn trunc_u32(self) -> (r: u32)
        ensures
            r == self.truncated(),
    {
        if self.is_nan() || self.bits >= SIGN_BIT {
            return 0;
        }
        let field: u32 = self.bits / HIDDEN_BIT;
        let fraction: u32 = self.bits % HIDDEN_BIT;
        proof {
            lemma2_to64();
            lemma_whole_by_exponent(self);
        }
        if field < 127 {
            proof {
                let e = self.exponent();
                lemma_pow2_pos((150 - e) as nat);
                if e < 126 {
                    lemma_pow2_strictly_increases(24, (150 - e) as nat);
                }
                assert(self.significand() < pow2((150 - e) as nat));
                vstd::arithmetic::div_mod::lemma_basic_div(
                    self.significand() as int,
                    pow2((150 - e) as nat) as int,
                );
            }
            return 0;
        }
        let m: u32 = HIDDEN_BIT + fraction;
        if field >= 159 {
            proof {
                let e = self.exponent();
                if e > 159 {
                    lemma_pow2_strictly_increases(9, (e - 150) as nat);
                }
                assert(self.significand() * pow2((e - 150) as nat) >= 0x0080_0000 * 0x200)
                    by (nonlinear_arith)
                    requires
                        self.significand() >= 0x0080_0000,
                        pow2((e - 150) as nat) >= 0x200,
                ;
            }
            return u32::MAX;
        }
        if field >= 150 {
            let shift: u32 = field - 150;
            proof {
                if shift < 8 {
                    lemma_pow2_strictly_increases(shift as nat, 8);
                }
                lemma_pow2_pos(shift as nat);
                assert(m * pow2(shift as nat) <= 0x00ff_ffff * 0x100) by (nonlinear_arith)
                    requires
                        m <= 0x00ff_ffff,
                        0 < pow2(shift as nat) <= 0x100,
                ;
                lemma_u32_shl_is_mul(m, shift);
            }
            m << shift
        } else {
            let shift: u32 = 150 - field;
            proof {
                lemma_u32_shr_is_div(m, shift);
            }
            m >> shift
        }
    }
}

/// The integer part of the absolute value, read off the exponent: from an
/// exponent of 150 on the significand is shifted up, below it the
/// significand is shifted down and loses its low bits.
pub proof fn lemma_whole_by_exponent(v: Scalar)
    ensures
        v.exponent() >= 150 ==> v.whole() == v.significand() * pow2((v.exponent() - 150) as nat),
        v.exponent() < 150 ==> v.whole() == v.significand() / pow2((150 - v.exponent()) as nat),
{
    let e = v.exponent();
    let m = v.significand() as int;
    let unit = pow2(149) as int;
    lemma_pow2_pos(149);
    if e >= 150 {
        let up = pow2((e - 150) as nat) as int;
        lemma_pow2_adds((e - 150) as nat, 149);
        assert(pow2((e - 1) as nat) == up * unit);
        assert(m * (up * unit) == (m * up) * unit) by (nonlinear_arith);
        assert(m * up >= 0) by (nonlinear_arith)
            requires
                m >= 0,
                up >= 0,
        ;
        lemma_div_by_multiple(m * up, unit);
    } else {
        let low = pow2((e - 1) as nat) as int;
        let down = pow2((150 - e) as nat) as int;
        lemma_pow2_pos((e - 1) as nat);
        lemma_pow2_pos((150 - e) as nat);
        lemma_pow2_adds((e - 1) as nat, (150 - e) as nat);
        assert(unit == low * down);
        lemma_div_multiples_vanish_quotient(low, m, down);
        assert(m * low == low * m) by (nonlinear_arith);
    }
}

proof fn lemma_magnitude_order(a: Scalar, b: Scalar)
    requires
        a.magnitude() < b.magnitude(),
    ensures
        a.scaled_magnitude() < b.scaled_magnitude(),
{
    let fa = a.magnitude() / HIDDEN_BIT;
    let fb = b.magnitude() / HIDDEN_BIT;
    let ma = a.significand() as int;
    let mb = b.significand() as int;
    let pa = pow2((a.exponent() - 1) as nat) as int;
    let pb = pow2((b.exponent() - 1) as nat) as int;
    lemma_pow2_pos((a.exponent() - 1) as nat);
    lemma_pow2_pos((b.exponent() - 1) as nat);
    if fa == fb {
        assert(ma * pa < mb * pa) by (nonlinear_arith)
            requires
                ma < mb,
                pa > 0,
        ;
    } else {
        assert(fa < fb);
        assert(mb >= 0x80_0000);
        if fa == 0 {
            assert(pa == 1) by {
                lemma2_to64();
            }
            assert(ma * pa < mb * pb) by (nonlinear_arith)
                requires
                    pa == 1,
                    0 <= ma < 0x80_0000,
                    mb >= 0x80_0000,
                    pb >= 1,
            ;
        } else {
            let next = pow2(a.exponent()) as int;
            lemma_pow2_unfold(a.exponent());
            assert(next == 2 * pa);
            if a.exponent() < b.exponent() - 1 {
                lemma_pow2_strictly_increases(a.exponent(), (b.exponent() - 1) as nat);
            }
            assert(next <= pb);
            assert(ma * pa < mb * pb) by (nonlinear_arith)
                requires
                    0 <= ma < 0x100_0000,
                    mb >= 0x80_0000,
                    2 * pa <= pb,
                    pa > 0,
            ;
        }
    }
}

/// The rank orders scalars as their values do: of two patterns that are
/// numbers, one has the smaller rank exactly when it has the smaller value,
/// and the two have one rank exactly when they have one value.
pub proof fn lemma_rank_orders_values(a: Scalar, b: Scalar)
    requires
        !a.spec_is_nan(),
        !b.spec_is_nan(),
    ensures
        a.rank() < b.rank() <==> a.scaled() < b.scaled(),
        a.rank() == b.rank() <==> a.scaled() == b.scaled(),
        a.spec_lt(b) <==> a.scaled() < b.scaled(),
        a.spec_same_value(b) <==> a.scaled() == b.scaled(),
{
    let zero = Scalar { bits: ZERO_BITS };
    assert(zero.scaled_magnitude() == 0) by {
        assert(zero.significand() == 0);
        assert(0 * pow2((zero.exponent() - 1) as nat) == 0) by (nonlinear_arith);
    }
    if a.magnitude() > 0 {
        lemma_magnitude_order(zero, a);
    } else {
        assert(a.significand() == 0);
        assert(0 * pow2((a.exponent() - 1) as nat) == 0) by (nonlinear_arith);
    }
    if b.magnitude() > 0 {
        lemma_magnitude_order(zero, b);
    } else {
        assert(b.significand() == 0);
        assert(0 * pow2((b.exponent() - 1) as nat) == 0) by (nonlinear_arith);
    }
    if a.magnitude() < b.magnitude() {
        lemma_magnitude_order(a, b);
    } else if b.magnitude() < a.magnitude() {
        lemma_magnitude_order(b, a);
    }
}

/// The unit interval of scalars is the unit interval of values: a scalar is
/// in it exactly when it is a number whose value lies from 0 to 1, that is,
/// whose value times 2^149 lies from 0 to 2^149.
pub proof fn lemma_unit_interval(v: Scalar)
    ensures
        v.in_unit() <==> !v.spec_is_nan() && 0 <= v.scaled() <= pow2(149),
{
    let zero = Scalar { bits: ZERO_BITS };
    let one = Scalar { bits: ONE_BITS };
    assert(one.scaled() == pow2(149)) by {
        lemma2_to64();
        lemma_pow2_adds(23, 126);
        assert(one.magnitude() / HIDDEN_BIT == 127);
        assert(one.magnitude() % HIDDEN_BIT == 0);
    }
    assert(zero.scaled() == 0) by {
        assert(zero.significand() == 0);
        assert(0 * pow2((zero.exponent() - 1) as nat) == 0) by (nonlinear_arith);
    }
    if !v.spec_is_nan() {
        lemma_rank_orders_values(v, one);
        lemma_rank_orders_values(v, zero);
        lemma_rank_orders_values(one, v);
        lemma_rank_orders_values(zero, v);
    }
}

} // verus!

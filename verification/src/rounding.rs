//! Whole numbers as binary32 values: the nearest value, the even one of two
//! equally near.

use vstd::prelude::*;
use vstd::arithmetic::div_mod::{
    lemma_div_by_multiple, lemma_fundamental_div_mod, lemma_fundamental_div_mod_converse,
};
use vstd::arithmetic::power2::{lemma2_to64, lemma_pow2_adds, lemma_pow2_pos, lemma_pow2_unfold, pow2};
use crate::scalar::{lemma_rank_orders_values, Scalar, HIDDEN_BIT};

verus! {

/// The position of the highest bit of `v` that is set; 0 for 0.
pub open spec fn top_bit(v: nat) -> nat
    decreases v,
{
    if v <= 1 {
        0
    } else {
        1 + top_bit(v / 2)
    }
}

/// The distance between neighbouring binary32 values at the whole number
/// `v`: 1 below 2^24, where every whole number is a value, and a power of
/// two that doubles with each further bit from there on.
pub open spec fn spacing(v: nat) -> nat {
    if top_bit(v) <= 23 {
        1
    } else {
        pow2((top_bit(v) - 23) as nat)
    }
}

/// The multiple of `unit` that is nearest to `v`, and of two equally near
/// the even multiple.
pub open spec fn nearest_multiple(v: nat, unit: nat) -> nat {
    let q = v / unit;
    let rest = v % unit;
    if 2 * rest < unit || (2 * rest == unit && q % 2 == 0) {
        q * unit
    } else {
        (q + 1) * unit
    }
}

/// The whole number that `v` is rounded to when it becomes a binary32
/// value.
pub open spec fn rounded(v: u32) -> nat {
    nearest_multiple(v as nat, spacing(v as nat))
}

/// The highest set bit of a number from 2^p up to, but not including,
/// 2^(p+1) is bit p.
pub proof fn lemma_top_bit(v: nat, p: nat)
    requires
        pow2(p) <= v < pow2(p + 1),
    ensures
        top_bit(v) == p,
    decreases p,
{
    lemma2_to64();
    if p == 0 {
        assert(v == 1);
    } else {
        lemma_pow2_unfold(p);
        lemma_pow2_unfold(p + 1);
        lemma_pow2_pos((p - 1) as nat);
        assert(v >= 2);
        lemma_top_bit(v / 2, (p - 1) as nat);
    }
}

/// Below 2^24 nothing is lost: every whole number is rounded to itself.
pub proof fn lemma_small_is_exact(v: u32)
    requires
        v < 0x100_0000,
    ensures
        rounded(v) == v,
{
    lemma2_to64();
    if v >= 2 {
        lemma_top_bit_below(v as nat, 24);
    }
    assert(spacing(v as nat) == 1);
}

/// A number below 2^p has no bit set from bit p on.
pub proof fn lemma_top_bit_below(v: nat, p: nat)
    requires
        1 <= v < pow2(p),
    ensures
        top_bit(v) < p,
    decreases v,
{
    lemma2_to64();
    if v > 1 && p > 0 {
        lemma_pow2_unfold(p);
        lemma_top_bit_below(v / 2, (p - 1) as nat);
    }
}

/// No whole number has two patterns with a clear sign bit.
pub proof fn lemma_whole_number_unique(a: Scalar, b: Scalar, n: nat)
    requires
        a.is_whole_number(n),
        b.is_whole_number(n),
    ensures
        a == b,
{
    lemma_rank_orders_values(a, b);
}

impl Scalar {
    /// Whether the scalar is the whole number `n`: a number with a clear
    /// sign bit whose value is `n`.
    pub open spec fn is_whole_number(self, n: nat) -> bool {
        !self.spec_is_nan() && !self.is_negative() && self.scaled_magnitude() == n * pow2(149)
    }

    /// The scalar that the whole number `v` becomes: the one that is the
    /// whole number [`rounded`]`(v)`.
    pub open spec fn spec_from_u32(v: u32) -> Scalar {
        choose|r: Scalar| r.is_whole_number(rounded(v))
    }

    /// The binary32 value nearest to `v`, and of two equally near the one
    /// with the even significand. Below 2^24 that is `v` itself.
    #[verifier::when_used_as_spec(spec_from_u32)]
    pub fn from_u32(v: u32) -> (r: Scalar)
        ensures
            r == Scalar::spec_from_u32(v),
            r.is_whole_number(rounded(v)),
            v < 0x100_0000 ==> r.is_whole_number(v as nat),
            r.truncated() == if rounded(v) > u32::MAX {
                u32::MAX
            } else {
                rounded(v) as u32
            },
    {
        proof {
            lemma2_to64();
            lemma_pow2_pos(149);
        }
        if v == 0 {
            let r = Scalar { bits: 0 };
            proof {
                assert(spacing(0) == 1);
                assert(rounded(v) == 0);
                assert(r.significand() == 0);
                assert(0 * pow2((r.exponent() - 1) as nat) == 0) by (nonlinear_arith);
                assert(0 * pow2(149) == 0) by (nonlinear_arith);
                assert(0nat / pow2(149) == 0) by {
                    lemma_div_by_multiple(0, pow2(149) as int);
                }
                lemma_whole_number_unique(r, Scalar::spec_from_u32(v), rounded(v));
            }
            return r;
        }
        let mut p: u32 = 0;
        let mut top: u32 = 1;
        while p < 31 && v / 2 >= top
            invariant
                p <= 31,
                top == pow2(p as nat),
                top <= v,
            decreases 31 - p,
        {
            proof {
                lemma_pow2_unfold((p + 1) as nat);
            }
            top = top * 2;
            p = p + 1;
        }
        proof {
            lemma_pow2_unfold((p + 1) as nat);
            assert(v < pow2((p + 1) as nat));
            lemma_top_bit(v as nat, p as nat);
        }
        let field: u32 = 127 + p;
        let significand: u32;
        if p <= 23 {
            proof {
                lemma_pow2_adds((23 - p) as nat, p as nat);
                lemma_pow2_pos((23 - p) as nat);
                lemma_div_by_multiple(pow2((23 - p) as nat) as int, top as int);
            }
            let factor: u32 = HIDDEN_BIT / top;
            proof {
                assert(factor == pow2((23 - p) as nat));
                assert(0x80_0000 <= v * factor < 0x100_0000) by (nonlinear_arith)
                    requires
                        top <= v < 2 * top,
                        factor * top == 0x80_0000,
                        factor > 0,
                ;
            }
            significand = v * factor;
            proof {
                assert(spacing(v as nat) == 1);
                assert(rounded(v) == v);
                lemma_pow2_adds((23 - p) as nat, (126 + p) as nat);
                assert((v * factor) * pow2((126 + p) as nat) == v * (factor * pow2(
                    (126 + p) as nat,
                ))) by (nonlinear_arith);
            }
        } else {
            proof {
                lemma_pow2_adds((p - 23) as nat, 23);
                lemma_pow2_pos((p - 23) as nat);
                lemma_div_by_multiple(pow2((p - 23) as nat) as int, HIDDEN_BIT as int);
                if p > 24 {
                    vstd::arithmetic::power2::lemma_pow2_strictly_increases(1, (p - 23) as nat);
                }
                if p < 31 {
                    vstd::arithmetic::power2::lemma_pow2_strictly_increases((p - 23) as nat, 8);
                }
            }
            let unit: u32 = top / HIDDEN_BIT;
            proof {
                assert(unit == pow2((p - 23) as nat));
                assert(2 <= unit <= 256);
                lemma_fundamental_div_mod(v as int, unit as int);
            }
            let q: u32 = v / unit;
            let rest: u32 = v % unit;
            proof {
                assert(0x80_0000 <= q < 0x100_0000) by (nonlinear_arith)
                    requires
                        top <= v < 2 * top,
                        unit * 0x80_0000 == top,
                        v == unit * q + rest,
                        0 <= rest < unit,
                        unit > 0,
                ;
            }
            let up: bool = 2 * rest > unit || (2 * rest == unit && q % 2 == 1);
            significand = if up {
                q + 1
            } else {
                q
            };
            proof {
                assert(spacing(v as nat) == unit);
                assert(rounded(v) == significand * unit) by {
                    assert(q * unit == unit * q) by (nonlinear_arith);
                }
                lemma_pow2_adds((p - 23) as nat, 149);
                assert(significand * pow2((126 + p) as nat) == (significand * unit) * pow2(149))
                    by (nonlinear_arith)
                    requires
                        pow2((126 + p) as nat) == unit * pow2(149),
                ;
            }
        }
        let r = Scalar { bits: field * HIDDEN_BIT + (significand - HIDDEN_BIT) };
        proof {
            // The value: with or without a carry into the exponent, the
            // pattern stands for `significand * 2^(126 + p)`.
            assert(r.bits == r.magnitude());
            if significand == 0x100_0000 {
                lemma_fundamental_div_mod_converse(r.bits as int, HIDDEN_BIT as int, field + 1, 0);
                assert(r.exponent() == field + 1);
                assert(r.significand() == 0x80_0000);
                lemma_pow2_unfold((127 + p) as nat);
                assert(0x80_0000 * pow2((127 + p) as nat) == 0x100_0000 * pow2((126 + p) as nat))
                    by (nonlinear_arith)
                    requires
                        pow2((127 + p) as nat) == 2 * pow2((126 + p) as nat),
                ;
            } else {
                lemma_fundamental_div_mod_converse(
                    r.bits as int,
                    HIDDEN_BIT as int,
                    field as int,
                    significand - HIDDEN_BIT,
                );
                assert(r.exponent() == field);
                assert(r.significand() == significand);
            }
            assert(r.scaled_magnitude() == significand * pow2((126 + p) as nat));
            assert(r.scaled_magnitude() == rounded(v) * pow2(149));
            lemma_div_by_multiple(rounded(v) as int, pow2(149) as int);
            assert(r.whole() == rounded(v));
            if v < 0x100_0000 {
                lemma_small_is_exact(v);
            }
            assert(r.is_whole_number(rounded(v)));
            lemma_whole_number_unique(r, Scalar::spec_from_u32(v), rounded(v));
        }
        r
    }
}

} // verus!

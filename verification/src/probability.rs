//! Probabilities as they come from outside: in binary64 encoding.
//!
//! The library does no arithmetic on fractions. A probability is taken in
//! as the 64 bits of its IEEE 754 binary64 encoding and read with integer
//! operations only: one sign bit, eleven bits of exponent, fifty-two bits of
//! fraction. What comes out is the number of unit draws, out of `2^53`, that
//! lie below the probability.

use crate::impairment::{Chance, UNIT};
use vstd::arithmetic::power2::{
    lemma2_to64, lemma2_to64_rest, lemma_pow2_pos, lemma_pow2_strictly_increases, pow2,
};
use vstd::bits::{lemma_u64_pow2_no_overflow, lemma_u64_shl_is_mul, lemma_u64_shr_is_div};
use vstd::prelude::*;

verus! {

/// The encoding of the probability one.
pub const ONE_BITS: u64 = 0x3ff0_0000_0000_0000;

/// The encoding of the probability zero.
pub const ZERO_BITS: u64 = 0;

/// Whether the sign bit of the encoding is set.
pub open spec fn is_negative(bits: u64) -> bool {
    bits >> 63 == 1
}

/// The exponent field of the encoding.
pub open spec fn exponent_field(bits: u64) -> u64 {
    (bits >> 52) & 0x7ff
}

/// The fraction field of the encoding.
pub open spec fn fraction_field(bits: u64) -> u64 {
    bits & 0xf_ffff_ffff_ffff
}

/// Whether the encoding is that of no number.
pub open spec fn is_nan(bits: u64) -> bool {
    exponent_field(bits) == 0x7ff && fraction_field(bits) != 0
}

/// The significand of the encoded number as an integer: the fraction field,
/// with the implicit leading bit unless the number is subnormal.
pub open spec fn significand(bits: u64) -> nat {
    if exponent_field(bits) == 0 {
        fraction_field(bits) as nat
    } else {
        (0x10_0000_0000_0000 + fraction_field(bits)) as nat
    }
}

/// For an encoded number below one: the `k` for which the number, scaled by
/// `2^53`, is its significand divided by `2^k`.
pub open spec fn scale(bits: u64) -> nat {
    if exponent_field(bits) == 0 {
        1021
    } else {
        (1022 - exponent_field(bits)) as nat
    }
}

/// The quotient of `a` by `b`, rounded up.
pub open spec fn ceil_div(a: nat, b: nat) -> nat {
    ((a + b - 1) / (b as int)) as nat
}

/// The number of unit draws, out of `2^53`, that lie below the encoded
/// probability `p`: the least integer not below `p * 2^53`, kept within
/// `0` and `2^53`. It is `0` for a negative number and for no number, and
/// `2^53` for one and above.
pub open spec fn threshold_of(bits: u64) -> u64 {
    if is_negative(bits) || is_nan(bits) {
        0
    } else if exponent_field(bits) >= 1023 {
        UNIT
    } else {
        ceil_div(significand(bits), pow2(scale(bits))) as u64
    }
}

/// A significand that is not zero and not above the divisor gives the
/// quotient one, and the significand zero gives zero.
proof fn lemma_small_quotients(a: nat, b: nat)
    requires
        a <= b,
        b > 0,
    ensures
        ceil_div(a, b) == if a == 0 {
            0nat
        } else {
            1nat
        },
{
    if a == 0 {
        assert(((b - 1) / (b as int)) == 0) by (nonlinear_arith)
            requires
                b > 0,
        ;
    } else {
        assert(((a + b - 1) / (b as int)) == 1) by (nonlinear_arith)
            requires
                1 <= a <= b,
        ;
    }
}

/// Rounding up never gives more than the dividend, nor zero for a dividend
/// above zero.
proof fn lemma_ceil_div_bounds(a: nat, b: nat)
    requires
        b > 0,
    ensures
        ceil_div(a, b) <= a,
        a > 0 ==> ceil_div(a, b) >= 1,
{
    assert(((a + b - 1) / (b as int)) <= a) by (nonlinear_arith)
        requires
            b > 0,
            a >= 0,
    ;
    if a > 0 {
        assert(((a + b - 1) / (b as int)) >= 1) by (nonlinear_arith)
            requires
                b > 0,
                a >= 1,
        ;
    }
}

impl Chance {
    /// The chance of the probability with the given binary64 encoding.
    ///
    /// A probability of zero or less, and one that is no number, is the
    /// chance that never hits. A probability of one or more is the chance
    /// that always hits. In between, a unit draw `d` hits exactly when
    /// `d / 2^53` is below the probability.
    pub fn from_probability_bits(bits: u64) -> (chance: Chance)
        ensures
            chance.threshold == threshold_of(bits),
            chance.threshold <= UNIT,
    {
        let negative = (bits >> 63) == 1;
        let exponent = (bits >> 52) & 0x7ff;
        let fraction = bits & 0xf_ffff_ffff_ffff;
        assert(exponent <= 0x7ff) by (bit_vector)
            requires
                exponent == (bits >> 52) & 0x7ff,
        ;
        assert(fraction < 0x10_0000_0000_0000) by (bit_vector)
            requires
                fraction == bits & 0xf_ffff_ffff_ffff,
        ;
        proof {
            lemma2_to64();
            lemma2_to64_rest();
        }
        if negative || (exponent == 0x7ff && fraction != 0) {
            Chance { threshold: 0 }
        } else if exponent >= 1023 {
            Chance { threshold: UNIT }
        } else if exponent == 0 {
            proof {
                lemma_pow2_strictly_increases(52, 1021);
                lemma_small_quotients(fraction as nat, pow2(1021));
            }
            if fraction == 0 {
                Chance { threshold: 0 }
            } else {
                Chance { threshold: 1 }
            }
        } else {
            let shift = 1022 - exponent;
            let whole: u64 = 0x10_0000_0000_0000 + fraction;
            if shift >= 53 {
                proof {
                    if shift > 53 {
                        lemma_pow2_strictly_increases(53, shift as nat);
                    }
                    lemma_small_quotients(whole as nat, pow2(shift as nat));
                }
                Chance { threshold: 1 }
            } else {
                proof {
                    lemma_u64_pow2_no_overflow(shift as nat);
                    lemma_u64_shl_is_mul(1, shift);
                    if shift < 52 {
                        lemma_pow2_strictly_increases(shift as nat, 52);
                    }
                    lemma_pow2_pos(shift as nat);
                }
                let unit: u64 = 1u64 << shift;
                let raised: u64 = whole + (unit - 1);
                proof {
                    lemma_u64_shr_is_div(raised, shift);
                    lemma_ceil_div_bounds(whole as nat, pow2(shift as nat));
                }
                Chance { threshold: raised >> shift }
            }
        }
    }
}

/// The probability one is the chance that always hits, and the probability
/// zero the chance that never hits.
pub proof fn law_probability_extremes()
    ensures
        threshold_of(ONE_BITS) == UNIT,
        (Chance { threshold: threshold_of(ONE_BITS) }).is_certain(),
        threshold_of(ZERO_BITS) == 0,
        (Chance { threshold: threshold_of(ZERO_BITS) }).is_never(),
{
    assert(0x3ff0_0000_0000_0000u64 >> 63 == 0) by (bit_vector);
    assert((0x3ff0_0000_0000_0000u64 >> 52) & 0x7ff == 1023) by (bit_vector);
    assert(0x3ff0_0000_0000_0000u64 & 0xf_ffff_ffff_ffff == 0) by (bit_vector);
    assert(0u64 >> 63 == 0) by (bit_vector);
    assert((0u64 >> 52) & 0x7ff == 0) by (bit_vector);
    assert(0u64 & 0xf_ffff_ffff_ffff == 0) by (bit_vector);
    lemma_pow2_pos(1021);
    lemma_small_quotients(0, pow2(1021));
}

/// Only a probability of zero or less, or one that is no number, gives the
/// chance that never hits; and only a probability of one or more gives the
/// chance that always hits.
pub proof fn law_probability_between(bits: u64)
    requires
        !is_negative(bits),
        !is_nan(bits),
    ensures
        threshold_of(bits) == 0 <==> exponent_field(bits) == 0 && fraction_field(bits) == 0,
        threshold_of(bits) >= UNIT <==> exponent_field(bits) >= 1023,
{
    let exponent = exponent_field(bits);
    let fraction = fraction_field(bits);
    assert(exponent <= 0x7ff) by (bit_vector)
        requires
            exponent == (bits >> 52) & 0x7ff,
    ;
    assert(fraction < 0x10_0000_0000_0000) by (bit_vector)
        requires
            fraction == bits & 0xf_ffff_ffff_ffff,
    ;
    if exponent < 1023 {
        lemma_pow2_pos(scale(bits));
        lemma_ceil_div_bounds(significand(bits), pow2(scale(bits)));
        if exponent == 1022 {
            lemma2_to64();
        } else {
            // The divisor is at least two, so the quotient stays below the unit.
            lemma_pow2_strictly_increases(0, scale(bits));
            lemma2_to64();
            let a = significand(bits);
            let b = pow2(scale(bits));
            assert(((a + b - 1) / (b as int)) < 0x20_0000_0000_0000) by (nonlinear_arith)
                requires
                    b >= 2,
                    0 <= a < 0x20_0000_0000_0000,
            ;
        }
    }
}

} // verus!

//! Double-precision numbers, read from their bit patterns.
//!
//! A pattern holds, from the top, one bit for the sign, eleven for the
//! exponent and fifty-two for the fraction. The library keeps scores as
//! patterns and compares patterns; the laws of this file say what such a
//! comparison means for the numbers.

use vstd::arithmetic::power2::{
    lemma2_to64, lemma_pow2_adds, lemma_pow2_pos, lemma_pow2_strictly_increases,
    lemma_pow2_unfold, pow2,
};
use vstd::prelude::*;

verus! {

/// The pattern of the sign bit alone.
pub const SIGN_BIT: u64 = 0x8000_0000_0000_0000;

/// How many fractions there are: two to the power of fifty-two.
pub const FRACTIONS: u64 = 0x10_0000_0000_0000;

/// The pattern of positive infinity.
pub const INFINITY_BITS: u64 = 0x7FF0_0000_0000_0000;

/// The pattern of the number nearest to nine tenths.
pub const NINE_TENTHS_BITS: u64 = 0x3FEC_CCCC_CCCC_CCCD;

/// The pattern of one.
pub const ONE_BITS: u64 = 0x3FF0_0000_0000_0000;

/// The pattern of the number nearest to one thousandth.
pub const THOUSANDTH_BITS: u64 = 0x3F50_624D_D2F1_A9FC;

/// The pattern of the least number that is less than a thousandth from
/// one.
pub const NEAR_ONE_FIRST: u64 = 0x3FEF_F7CE_D916_872C;

/// The pattern of the greatest number that is less than a thousandth from
/// one.
pub const NEAR_ONE_LAST: u64 = 0x3FF0_0418_9374_BC6A;

/// Whether the sign bit of the pattern is set.
pub open spec fn is_negative(bits: u64) -> bool {
    bits >= SIGN_BIT
}

/// The exponent field of the pattern.
pub open spec fn exponent(bits: u64) -> nat {
    ((bits / FRACTIONS) % 2048) as nat
}

/// The fraction field of the pattern.
pub open spec fn fraction(bits: u64) -> nat {
    (bits % FRACTIONS) as nat
}

/// Whether the pattern writes no number.
pub open spec fn is_nan(bits: u64) -> bool {
    exponent(bits) == 2047 && fraction(bits) != 0
}

/// Whether the pattern writes an infinity.
pub open spec fn is_infinite(bits: u64) -> bool {
    exponent(bits) == 2047 && fraction(bits) == 0
}

/// The size of the finite number that the pattern writes, without its sign,
/// counted in the smallest size that a pattern can write (two to the power
/// of minus 1074).
pub open spec fn magnitude(bits: u64) -> nat {
    if exponent(bits) == 0 {
        fraction(bits)
    } else {
        ((FRACTIONS + fraction(bits)) * pow2((exponent(bits) - 1) as nat)) as nat
    }
}

/// Whether the pattern writes a number above zero, positive infinity
/// included.
pub open spec fn is_above_zero(bits: u64) -> bool {
    !is_negative(bits) && !is_nan(bits) && (is_infinite(bits) || magnitude(bits) > 0)
}

/// Whether of two numbers above zero the one that `a` writes is the
/// greater.
pub open spec fn is_greater(a: u64, b: u64) -> bool {
    !is_infinite(b) && (is_infinite(a) || magnitude(a) > magnitude(b))
}

/// The patterns of the numbers above zero are those from the first after
/// zero up to the pattern of positive infinity.
pub proof fn lemma_patterns_above_zero(bits: u64)
    ensures
        is_above_zero(bits) <==> 0 < bits <= INFINITY_BITS,
{
    if 0 < bits < INFINITY_BITS && exponent(bits) != 0 {
        lemma_pow2_pos((exponent(bits) - 1) as nat);
        assert(magnitude(bits) > 0) by (nonlinear_arith)
            requires
                magnitude(bits) == (FRACTIONS + fraction(bits)) * pow2((exponent(bits) - 1) as nat),
                pow2((exponent(bits) - 1) as nat) > 0,
        ;
    }
}

/// Of two numbers above zero, the greater has the greater pattern.
pub proof fn lemma_greater_has_greater_pattern(a: u64, b: u64)
    requires
        is_above_zero(a),
        is_above_zero(b),
    ensures
        is_greater(a, b) <==> a > b,
{
    lemma_patterns_above_zero(a);
    lemma_patterns_above_zero(b);
    if a < b < INFINITY_BITS {
        lemma_magnitude_grows(a, b);
    }
    if b < a < INFINITY_BITS {
        lemma_magnitude_grows(b, a);
    }
}

/// Of two finite numbers that are not negative, the one with the smaller
/// pattern is the smaller.
proof fn lemma_magnitude_grows(a: u64, b: u64)
    requires
        a < b < INFINITY_BITS,
    ensures
        magnitude(a) < magnitude(b),
{
    let (ea, fa) = (exponent(a), fraction(a));
    let (eb, fb) = (exponent(b), fraction(b));
    if eb > 0 {
        let high = pow2((eb - 1) as nat);
        lemma_pow2_pos((eb - 1) as nat);
        if ea == eb {
            assert((FRACTIONS + fa) * high < (FRACTIONS + fb) * high) by (nonlinear_arith)
                requires
                    fa < fb,
                    high > 0,
            ;
        } else if ea == 0 {
            assert(fa < (FRACTIONS + fb) * high) by (nonlinear_arith)
                requires
                    fa < FRACTIONS,
                    high > 0,
            ;
        } else {
            let low = pow2((ea - 1) as nat);
            lemma_pow2_pos((ea - 1) as nat);
            lemma_pow2_unfold(ea);
            if ea < eb - 1 {
                lemma_pow2_strictly_increases(ea, (eb - 1) as nat);
            }
            assert((FRACTIONS + fa) * low < (FRACTIONS + fb) * high) by (nonlinear_arith)
                requires
                    fa < FRACTIONS,
                    0 < 2 * low <= high,
            ;
        }
    }
}

/// The number that `NINE_TENTHS_BITS` writes lies in the upper half of the
/// numbers below one, and no number is nearer to nine tenths: ten times
/// its size is two units of the last place above nine, where one step to
/// the next number makes ten units.
pub proof fn lemma_nine_tenths()
    ensures
        exponent(NINE_TENTHS_BITS) == 1022,
        10 * (FRACTIONS + fraction(NINE_TENTHS_BITS)) == 9 * (2 * FRACTIONS) + 2,
        is_above_zero(NINE_TENTHS_BITS),
{
    lemma_patterns_above_zero(NINE_TENTHS_BITS);
}

/// No number is nearer to one thousandth than the one that
/// `THOUSANDTH_BITS` writes: a thousand times its size is ninety-six units
/// of the last place above one, where one step to the next number makes a
/// thousand units.
pub proof fn lemma_thousandth()
    ensures
        exponent(THOUSANDTH_BITS) == 1013,
        1000 * (FRACTIONS + fraction(THOUSANDTH_BITS)) == 1024 * FRACTIONS + 96,
{
}

/// Whether the pattern writes a number that differs from one by less than
/// the number that `THOUSANDTH_BITS` writes.
pub open spec fn is_near_one(bits: u64) -> bool {
    &&& !is_negative(bits)
    &&& exponent(bits) != 2047
    &&& if magnitude(bits) < magnitude(ONE_BITS) {
        magnitude(ONE_BITS) - magnitude(bits) < magnitude(THOUSANDTH_BITS)
    } else {
        magnitude(bits) - magnitude(ONE_BITS) < magnitude(THOUSANDTH_BITS)
    }
}

/// The numbers that differ from one by less than a thousandth are those
/// with the patterns from `NEAR_ONE_FIRST` to `NEAR_ONE_LAST`.
pub proof fn lemma_patterns_near_one(bits: u64)
    ensures
        is_near_one(bits) <==> NEAR_ONE_FIRST <= bits <= NEAR_ONE_LAST,
{
    let unit = pow2(1012);
    let e = exponent(bits);
    let f = fraction(bits);
    let sum = FRACTIONS + f;
    let margin = FRACTIONS + fraction(THOUSANDTH_BITS);
    lemma2_to64();
    lemma_pow2_pos(1012);
    lemma_pow2_adds(1012, 9);
    lemma_pow2_adds(1012, 10);
    lemma_pow2_adds(1012, 11);
    let one = magnitude(ONE_BITS);
    assert(one == (FRACTIONS * 1024) * unit) by (nonlinear_arith)
        requires
            one == FRACTIONS * pow2(1022),
            pow2(1022) == 1024 * unit,
    ;
    if !is_negative(bits) && e != 2047 {
        let size = magnitude(bits);
        if e == 1022 {
            assert(size == (sum * 512) * unit) by (nonlinear_arith)
                requires
                    size == sum * pow2(1021),
                    pow2(1021) == 512 * unit,
            ;
            assert(one - size == (FRACTIONS * 1024 - sum * 512) * unit) by (nonlinear_arith)
                requires
                    one == (FRACTIONS * 1024) * unit,
                    size == (sum * 512) * unit,
            ;
            lemma_scaled_order(FRACTIONS * 1024 - sum * 512, margin as int, unit as int);
        } else if e == 1023 {
            assert(size == (sum * 1024) * unit) by (nonlinear_arith)
                requires
                    size == sum * pow2(1022),
                    pow2(1022) == 1024 * unit,
            ;
            assert(size - one == (sum * 1024 - FRACTIONS * 1024) * unit) by (nonlinear_arith)
                requires
                    one == (FRACTIONS * 1024) * unit,
                    size == (sum * 1024) * unit,
            ;
            lemma_scaled_order(sum * 1024 - FRACTIONS * 1024, margin as int, unit as int);
        } else if e < 1022 {
            let high = if e == 0 {
                1
            } else {
                pow2((e - 1) as nat)
            };
            if e > 0 {
                lemma_pow2_pos((e - 1) as nat);
                lemma_pow2_unfold(e);
                if e < 1021 {
                    lemma_pow2_strictly_increases(e, 1021);
                }
            }
            assert(size <= (FRACTIONS * 512) * unit) by (nonlinear_arith)
                requires
                    size <= sum * high,
                    sum < 2 * FRACTIONS,
                    0 < 2 * high <= 512 * unit,
            ;
            assert(one - size >= margin * unit) by (nonlinear_arith)
                requires
                    one == (FRACTIONS * 1024) * unit,
                    size <= (FRACTIONS * 512) * unit,
                    margin <= FRACTIONS * 512,
                    unit > 0,
            ;
        } else {
            let low = pow2((e - 1) as nat);
            if e > 1024 {
                lemma_pow2_strictly_increases(1023, (e - 1) as nat);
            }
            assert(size >= (FRACTIONS * 2048) * unit) by (nonlinear_arith)
                requires
                    size == sum * low,
                    sum >= FRACTIONS,
                    low >= 2048 * unit,
                    unit > 0,
            ;
            assert(size - one >= margin * unit) by (nonlinear_arith)
                requires
                    one == (FRACTIONS * 1024) * unit,
                    size >= (FRACTIONS * 2048) * unit,
                    margin <= FRACTIONS * 1024,
                    unit > 0,
            ;
        }
    }
}

/// Sizes counted in one unit compare as their counts.
proof fn lemma_scaled_order(a: int, b: int, unit: int)
    requires
        unit > 0,
    ensures
        a * unit < b * unit <==> a < b,
        a * unit >= 0 <==> a >= 0,
{
    assert(a * unit < b * unit <==> a < b) by (nonlinear_arith)
        requires
            unit > 0,
    ;
    assert(a * unit >= 0 <==> a >= 0) by (nonlinear_arith)
        requires
            unit > 0,
    ;
}

} // verus!

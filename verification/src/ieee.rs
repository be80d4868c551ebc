//! Order and classification of IEEE 754 binary32 values given by their bit
//! patterns.
//!
//! A pattern is a `u32`: one sign bit, eight exponent bits, 23 fraction bits.
//! All comparisons here agree with the comparisons of the numbers the
//! patterns encode: a NaN is unordered with everything, and the two zeros are
//! equal.

use vstd::prelude::*;
use vstd::arithmetic::power2::{lemma_pow2_pos, lemma_pow2_strictly_increases, lemma_pow2_unfold, pow2};

verus! {

/// Pattern of `+0.0`.
pub const ZERO: u32 = 0;

/// Pattern of `-0.0`, which is also the mask of the sign bit.
pub const NEG_ZERO: u32 = 0x8000_0000;

/// Pattern of `1.0`.
pub const ONE: u32 = 0x3f80_0000;

/// Pattern of the largest finite value.
pub const MAX_FINITE: u32 = 0x7f7f_ffff;

/// Pattern of positive infinity. Every larger magnitude is a NaN.
pub const INFINITY: u32 = 0x7f80_0000;

/// The pattern with its sign bit cleared.
pub open spec fn magnitude(bits: u32) -> int {
    if bits >= NEG_ZERO {
        bits - NEG_ZERO
    } else {
        bits as int
    }
}

/// Whether the sign bit is set.
pub open spec fn sign_bit(bits: u32) -> bool {
    bits >= NEG_ZERO
}

/// Whether the pattern encodes a NaN.
pub open spec fn is_nan(bits: u32) -> bool {
    magnitude(bits) > INFINITY
}

/// Whether the pattern encodes a finite number.
pub open spec fn is_finite(bits: u32) -> bool {
    magnitude(bits) < INFINITY
}

/// An integer that orders the patterns as their numbers are ordered.
///
/// Among patterns of one sign the magnitude grows with the number's absolute
/// value, so negating the magnitude of the negative ones lines all patterns
/// up. Both zeros get rank 0.
pub open spec fn rank(bits: u32) -> int {
    if sign_bit(bits) {
        -magnitude(bits)
    } else {
        magnitude(bits)
    }
}

/// The exponent field of a pattern.
pub open spec fn exponent(bits: u32) -> int {
    magnitude(bits) / 0x80_0000
}

/// The fraction field of a pattern.
pub open spec fn fraction(bits: u32) -> int {
    magnitude(bits) % 0x80_0000
}

/// The absolute value of a finite number, counted in units of 2^-149, the
/// smallest positive number: the fraction itself for a subnormal, else the
/// fraction with its implicit leading one, shifted by the exponent.
pub open spec fn scaled_magnitude(bits: u32) -> int {
    if exponent(bits) == 0 {
        fraction(bits)
    } else {
        (0x80_0000 + fraction(bits)) * pow2((exponent(bits) - 1) as nat)
    }
}

/// The finite number that a pattern encodes, counted in units of 2^-149.
pub open spec fn scaled_value(bits: u32) -> int {
    if sign_bit(bits) {
        -scaled_magnitude(bits)
    } else {
        scaled_magnitude(bits)
    }
}

/// `a < b` on the encoded numbers.
pub open spec fn lt(a: u32, b: u32) -> bool {
    !is_nan(a) && !is_nan(b) && rank(a) < rank(b)
}

/// `a <= b` on the encoded numbers.
pub open spec fn le(a: u32, b: u32) -> bool {
    !is_nan(a) && !is_nan(b) && rank(a) <= rank(b)
}

/// `a == b` on the encoded numbers.
pub open spec fn same_number(a: u32, b: u32) -> bool {
    !is_nan(a) && !is_nan(b) && rank(a) == rank(b)
}

/// Whether the number lies in the closed unit interval.
pub open spec fn in_unit_interval(bits: u32) -> bool {
    le(ZERO, bits) && le(bits, ONE)
}

/// Whether the number is strictly positive; infinity counts.
pub open spec fn is_positive(bits: u32) -> bool {
    lt(ZERO, bits)
}

/// Computes the rank of a pattern.
pub fn rank_of(bits: u32) -> (r: i64)
    ensures
        r == rank(bits),
{
    if bits >= NEG_ZERO {
        let m: u32 = bits - NEG_ZERO;
        let wide: i64 = m as i64;
        -wide
    } else {
        bits as i64
    }
}

/// Tells whether a pattern encodes a NaN.
pub fn nan(bits: u32) -> (r: bool)
    ensures
        r == is_nan(bits),
{
    let m: u32 = if bits >= NEG_ZERO {
        bits - NEG_ZERO
    } else {
        bits
    };
    m > INFINITY
}

/// Tells whether a pattern encodes a finite number.
pub fn finite(bits: u32) -> (r: bool)
    ensures
        r == is_finite(bits),
{
    let m: u32 = if bits >= NEG_ZERO {
        bits - NEG_ZERO
    } else {
        bits
    };
    m < INFINITY
}

/// Decides `a < b` on the encoded numbers.
pub fn less(a: u32, b: u32) -> (r: bool)
    ensures
        r == lt(a, b),
{
    !nan(a) && !nan(b) && rank_of(a) < rank_of(b)
}

/// Decides `a <= b` on the encoded numbers.
pub fn less_eq(a: u32, b: u32) -> (r: bool)
    ensures
        r == le(a, b),
{
    !nan(a) && !nan(b) && rank_of(a) <= rank_of(b)
}

/// Decides whether the number is strictly positive.
pub fn positive(bits: u32) -> (r: bool)
    ensures
        r == is_positive(bits),
        r == (0 < bits <= INFINITY),
{
    less(ZERO, bits)
}

/// Decides whether the number lies in the closed unit interval.
pub fn unit_interval(bits: u32) -> (r: bool)
    ensures
        r == in_unit_interval(bits),
        r == (bits <= ONE || bits == NEG_ZERO),
{
    less_eq(ZERO, bits) && less_eq(bits, ONE)
}

/// The pattern of the number with the opposite sign.
pub open spec fn negated(bits: u32) -> u32 {
    if sign_bit(bits) {
        (bits - NEG_ZERO) as u32
    } else {
        (bits + NEG_ZERO) as u32
    }
}

/// The larger of two numbers. A NaN loses against a number; of two equal
/// numbers the first is kept.
pub open spec fn larger(a: u32, b: u32) -> u32 {
    if is_nan(a) || lt(a, b) {
        b
    } else {
        a
    }
}

/// The smaller of two numbers. A NaN loses against a number; of two equal
/// numbers the first is kept.
pub open spec fn smaller(a: u32, b: u32) -> u32 {
    if is_nan(a) || lt(b, a) {
        b
    } else {
        a
    }
}

/// The number brought into the closed unit interval: what is below zero or
/// no number becomes `+0.0`, what is above one becomes `1.0`.
pub open spec fn clamped_to_unit(bits: u32) -> u32 {
    if is_nan(bits) || lt(bits, ZERO) {
        ZERO
    } else if lt(ONE, bits) {
        ONE
    } else {
        bits
    }
}

/// Flips the sign of a number.
pub fn neg(bits: u32) -> (r: u32)
    ensures
        r == negated(bits),
{
    if bits >= NEG_ZERO {
        bits - NEG_ZERO
    } else {
        bits + NEG_ZERO
    }
}

/// Clears the sign of a number.
pub fn abs(bits: u32) -> (r: u32)
    ensures
        r == magnitude(bits),
{
    if bits >= NEG_ZERO {
        bits - NEG_ZERO
    } else {
        bits
    }
}

/// Picks the larger of two numbers.
pub fn max(a: u32, b: u32) -> (r: u32)
    ensures
        r == larger(a, b),
{
    if nan(a) || less(a, b) {
        b
    } else {
        a
    }
}

/// Picks the smaller of two numbers.
pub fn min(a: u32, b: u32) -> (r: u32)
    ensures
        r == smaller(a, b),
{
    if nan(a) || less(b, a) {
        b
    } else {
        a
    }
}

/// Brings a number into the closed unit interval.
pub fn clamp_unit(bits: u32) -> (r: u32)
    ensures
        r == clamped_to_unit(bits),
{
    if nan(bits) || less(bits, ZERO) {
        ZERO
    } else if less(ONE, bits) {
        ONE
    } else {
        bits
    }
}

/// Negation mirrors the order and undoes itself; it keeps NaN a NaN.
pub proof fn negation_mirrors_order(a: u32, b: u32)
    ensures
        negated(negated(a)) == a,
        is_nan(negated(a)) == is_nan(a),
        rank(negated(a)) == -rank(a),
        lt(negated(a), negated(b)) == lt(b, a),
{
}

/// The larger of two numbers is one of them and not below either; the
/// smaller is one of them and not above either. Of a number and a NaN the
/// number is the result.
pub proof fn larger_and_smaller_select(a: u32, b: u32)
    ensures
        larger(a, b) == a || larger(a, b) == b,
        smaller(a, b) == a || smaller(a, b) == b,
        !is_nan(a) && !is_nan(b) ==> le(a, larger(a, b)) && le(b, larger(a, b)),
        !is_nan(a) && !is_nan(b) ==> le(smaller(a, b), a) && le(smaller(a, b), b),
        is_nan(a) ==> larger(a, b) == b && smaller(a, b) == b,
        is_nan(b) && !is_nan(a) ==> larger(a, b) == a && smaller(a, b) == a,
{
}

/// What is clamped lies in the unit interval, and what lies there already is
/// left as it is.
pub proof fn clamp_lands_in_unit_interval(bits: u32)
    ensures
        in_unit_interval(clamped_to_unit(bits)),
        in_unit_interval(bits) ==> clamped_to_unit(bits) == bits,
        clamped_to_unit(clamped_to_unit(bits)) == clamped_to_unit(bits),
{
}

/// The strict order is irreflexive and transitive, and no two numbers are
/// each below the other.
pub proof fn lt_is_strict_order(a: u32, b: u32, c: u32)
    ensures
        !lt(a, a),
        lt(a, b) ==> !lt(b, a),
        lt(a, b) && lt(b, c) ==> lt(a, c),
        lt(a, b) && le(b, c) ==> lt(a, c),
        le(a, b) && lt(b, c) ==> lt(a, c),
{
}

/// Any two numbers are comparable: exactly one of below, same, above holds,
/// and none of them holds as soon as a NaN takes part.
pub proof fn lt_is_total_on_numbers(a: u32, b: u32)
    ensures
        !is_nan(a) && !is_nan(b) ==> (lt(a, b) || same_number(a, b) || lt(b, a)),
        is_nan(a) || is_nan(b) ==> !lt(a, b) && !le(a, b) && !same_number(a, b),
        le(a, b) <==> lt(a, b) || same_number(a, b),
        !(lt(a, b) && same_number(a, b)),
{
}

/// Two patterns encode the same number exactly when they are equal and not
/// NaN, or are the two zeros.
pub proof fn same_number_means_same_bits_or_zeros(a: u32, b: u32)
    ensures
        same_number(a, b) <==> !is_nan(a) && !is_nan(b) && (a == b || (magnitude(a) == 0
            && magnitude(b) == 0)),
{
}

proof fn lemma_magnitude_grows(a: u32, b: u32)
    requires
        is_finite(a),
        is_finite(b),
        magnitude(a) < magnitude(b),
    ensures
        0 <= scaled_magnitude(a) < scaled_magnitude(b),
{
    let ea = exponent(a);
    let eb = exponent(b);
    let fa = fraction(a);
    let fb = fraction(b);
    assert(magnitude(a) == ea * 0x80_0000 + fa && 0 <= fa < 0x80_0000 && 0 <= ea);
    assert(magnitude(b) == eb * 0x80_0000 + fb && 0 <= fb < 0x80_0000 && 0 <= eb);
    assert(ea <= eb);
    if ea == eb {
        if ea > 0 {
            let p = pow2((ea - 1) as nat) as int;
            lemma_pow2_pos((ea - 1) as nat);
            assert(0 <= (0x80_0000 + fa) * p < (0x80_0000 + fb) * p) by (nonlinear_arith)
                requires
                    0 <= fa < fb,
                    p > 0,
            ;
        }
    } else {
        let pb = pow2((eb - 1) as nat) as int;
        lemma_pow2_pos((eb - 1) as nat);
        assert(0x80_0000 * pb <= (0x80_0000 + fb) * pb) by (nonlinear_arith)
            requires
                0 <= fb,
                pb > 0,
        ;
        if ea == 0 {
            assert(0x80_0000 * 1 <= 0x80_0000 * pb) by (nonlinear_arith)
                requires
                    pb >= 1,
            ;
        } else {
            let pa = pow2((ea - 1) as nat) as int;
            lemma_pow2_pos((ea - 1) as nat);
            lemma_pow2_unfold(ea as nat);
            if ea < eb - 1 {
                lemma_pow2_strictly_increases(ea as nat, (eb - 1) as nat);
            }
            assert(pow2(ea as nat) == 2 * pa);
            assert(2 * pa <= pb);
            assert(0 <= (0x80_0000 + fa) * pa < 0x80_0000 * (2 * pa)) by (nonlinear_arith)
                requires
                    0 <= fa < 0x80_0000,
                    pa > 0,
            ;
            assert(0x80_0000 * (2 * pa) <= 0x80_0000 * pb) by (nonlinear_arith)
                requires
                    2 * pa <= pb,
            ;
        }
    }
}

/// The order on patterns is the order of the numbers they encode: for finite
/// numbers, each comparison of two patterns is the comparison of their
/// values. Both zeros have the value 0.
pub proof fn order_is_that_of_the_values(a: u32, b: u32)
    requires
        is_finite(a),
        is_finite(b),
    ensures
        lt(a, b) <==> scaled_value(a) < scaled_value(b),
        le(a, b) <==> scaled_value(a) <= scaled_value(b),
        same_number(a, b) <==> scaled_value(a) == scaled_value(b),
        scaled_value(ZERO) == 0 && scaled_value(NEG_ZERO) == 0,
        scaled_value(negated(a)) == -scaled_value(a),
{
    if magnitude(a) < magnitude(b) {
        lemma_magnitude_grows(a, b);
    } else if magnitude(b) < magnitude(a) {
        lemma_magnitude_grows(b, a);
    }
    lemma_magnitude_is_not_negative(a);
    lemma_magnitude_is_not_negative(b);
    assert(scaled_magnitude(ZERO) == 0);
    assert(scaled_magnitude(NEG_ZERO) == 0);
    assert(magnitude(a) == 0 ==> scaled_magnitude(a) == 0);
    assert(magnitude(b) == 0 ==> scaled_magnitude(b) == 0);
    assert(magnitude(negated(a)) == magnitude(a));
    if magnitude(a) > 0 {
        lemma_magnitude_grows(ZERO, a);
    }
    if magnitude(b) > 0 {
        lemma_magnitude_grows(ZERO, b);
    }
}

proof fn lemma_magnitude_is_not_negative(a: u32)
    ensures
        scaled_magnitude(a) >= 0,
{
    if exponent(a) > 0 {
        lemma_pow2_pos((exponent(a) - 1) as nat);
        assert((0x80_0000 + fraction(a)) * pow2((exponent(a) - 1) as nat) >= 0)
            by (nonlinear_arith)
            requires
                fraction(a) >= 0,
                pow2((exponent(a) - 1) as nat) > 0,
        ;
    }
}

/// Every finite number is below positive infinity and above negative
/// infinity, and the largest finite pattern encodes (2^24 - 1) * 2^104.
pub proof fn infinities_bound_the_numbers(a: u32)
    requires
        is_finite(a),
    ensures
        lt(a, INFINITY),
        lt(negated(INFINITY), a),
        le(a, MAX_FINITE),
        !is_nan(INFINITY) && !is_finite(INFINITY),
        exponent(MAX_FINITE) == 254 && fraction(MAX_FINITE) == 0x7f_ffff,
{
}

} // verus!

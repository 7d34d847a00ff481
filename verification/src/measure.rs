//! Single-precision measurements, held by their bit pattern.
//!
//! A sensor value travels through the relay as the 32 bits of its IEEE 754
//! binary32 encoding: one sign bit, eight exponent bits, twenty-three
//! fraction bits.  Nothing is lost that way, and every comparison the relay
//! makes can be decided on integers.
//!
//! The meaning of a pattern is given by [`scaled`]: the encoded number
//! multiplied by two to the 149th, which is an integer for every pattern that
//! is not a NaN.  The executable comparisons work on a cheaper key and are
//! proved to agree with the order of the numbers.

use vstd::prelude::*;
use vstd::arithmetic::power2::{
    lemma_pow2_adds, lemma_pow2_pos, lemma_pow2_strictly_increases, lemma_pow2_unfold, pow2,
};

verus! {

/// The bit that holds the sign.
pub const SIGN_BIT: u32 = 0x8000_0000;

/// The pattern of positive infinity: every exponent bit set, no fraction bit.
pub const INFINITY_BITS: u32 = 0x7F80_0000;

/// Two to the 23rd: the number of fraction values under one exponent.
pub const FRACTION_SPAN: u32 = 0x0080_0000;

/// The pattern with its sign bit cleared.
pub open spec fn magnitude(bits: u32) -> int {
    if bits >= SIGN_BIT {
        bits - SIGN_BIT
    } else {
        bits as int
    }
}

/// Whether the sign bit is set.
pub open spec fn is_negative(bits: u32) -> bool {
    bits >= SIGN_BIT
}

/// Whether the pattern encodes no number at all.
pub open spec fn is_nan(bits: u32) -> bool {
    magnitude(bits) > INFINITY_BITS
}

/// Whether the pattern encodes a number that is neither infinite nor a NaN.
pub open spec fn is_finite(bits: u32) -> bool {
    magnitude(bits) < INFINITY_BITS
}

/// The absolute value of the encoded number, in units of two to the minus 149.
///
/// With exponent field `e` and fraction field `f`, a subnormal pattern
/// (`e == 0`) encodes `f * 2^-149` and any other `(2^23 + f) * 2^(e - 150)`.
pub open spec fn scaled_magnitude(bits: u32) -> int {
    let e: int = magnitude(bits) / (FRACTION_SPAN as int);
    let f: int = magnitude(bits) % (FRACTION_SPAN as int);
    if e == 0 {
        f
    } else {
        (FRACTION_SPAN + f) * pow2((e - 1) as nat)
    }
}

/// The encoded number in units of two to the minus 149.
pub open spec fn scaled(bits: u32) -> int {
    if is_negative(bits) {
        -scaled_magnitude(bits)
    } else {
        scaled_magnitude(bits)
    }
}

/// The number one in the units of [`scaled`].
pub open spec fn unit() -> int {
    pow2(149) as int
}

/// The key the executable comparisons use: the magnitude, negated under a
/// set sign bit.
pub open spec fn order_key(bits: u32) -> int {
    if is_negative(bits) {
        -magnitude(bits)
    } else {
        magnitude(bits)
    }
}

/// `a < b` as IEEE 754 defines it: false as soon as either side is a NaN.
pub open spec fn less(a: u32, b: u32) -> bool {
    !is_nan(a) && !is_nan(b) && scaled(a) < scaled(b)
}

/// The encoded number exceeds `hundredths / 100`.
pub open spec fn exceeds(bits: u32, hundredths: int) -> bool {
    !is_nan(bits) && scaled(bits) * 100 > hundredths * unit()
}

/// The encoded number is at least `hundredths / 100`.
pub open spec fn reaches(bits: u32, hundredths: int) -> bool {
    !is_nan(bits) && scaled(bits) * 100 >= hundredths * unit()
}

/// The encoded number is less than `hundredths / 100`.
pub open spec fn falls_below(bits: u32, hundredths: int) -> bool {
    !is_nan(bits) && scaled(bits) * 100 < hundredths * unit()
}

/// A larger magnitude encodes a larger absolute value.
pub proof fn lemma_scaled_magnitude_increases(a: u32, b: u32)
    requires
        magnitude(a) < magnitude(b),
    ensures
        0 <= scaled_magnitude(a) < scaled_magnitude(b),
{
    let span: int = FRACTION_SPAN as int;
    let ea: int = magnitude(a) / span;
    let fa: int = magnitude(a) % span;
    let eb: int = magnitude(b) / span;
    let fb: int = magnitude(b) % span;
    assert(magnitude(a) == ea * span + fa && magnitude(b) == eb * span + fb);
    assert(0 <= ea <= eb);
    if ea > 0 {
        lemma_pow2_pos((ea - 1) as nat);
        assert(0 <= (span + fa) * pow2((ea - 1) as nat)) by (nonlinear_arith)
            requires
                0 <= span + fa,
                0 < pow2((ea - 1) as nat),
        ;
    }
    if ea == eb {
        if ea > 0 {
            let p: int = pow2((ea - 1) as nat) as int;
            assert((span + fa) * p < (span + fb) * p) by (nonlinear_arith)
                requires
                    fa < fb,
                    0 < p,
            ;
        }
    } else {
        let q: int = pow2((eb - 1) as nat) as int;
        lemma_pow2_pos((eb - 1) as nat);
        assert(span <= (span + fb) * q) by (nonlinear_arith)
            requires
                0 <= fb,
                1 <= q,
                0 < span,
        ;
        if ea > 0 {
            let p: int = pow2((ea - 1) as nat) as int;
            lemma_pow2_unfold(ea as nat);
            assert(pow2(ea as nat) == 2 * p);
            if ea < eb - 1 {
                lemma_pow2_strictly_increases(ea as nat, (eb - 1) as nat);
            }
            assert(2 * p <= q);
            assert((span + fa) * p < (span + fb) * q) by (nonlinear_arith)
                requires
                    0 <= fa < span,
                    0 <= fb,
                    0 < p,
                    2 * p <= q,
            ;
        }
    }
}

/// The order of the keys is the order of the encoded numbers.
pub proof fn lemma_order_key(a: u32, b: u32)
    ensures
        order_key(a) < order_key(b) <==> scaled(a) < scaled(b),
        order_key(a) == order_key(b) <==> scaled(a) == scaled(b),
{
    let zero: u32 = 0;
    assert(scaled_magnitude(zero) == 0);
    if magnitude(a) > 0 {
        lemma_scaled_magnitude_increases(zero, a);
    } else {
        assert(scaled_magnitude(a) == 0);
    }
    if magnitude(b) > 0 {
        lemma_scaled_magnitude_increases(zero, b);
    } else {
        assert(scaled_magnitude(b) == 0);
    }
    if magnitude(a) < magnitude(b) {
        lemma_scaled_magnitude_increases(a, b);
    } else if magnitude(b) < magnitude(a) {
        lemma_scaled_magnitude_increases(b, a);
    } else {
        assert(scaled_magnitude(a) == scaled_magnitude(b));
    }
}

/// The value of a pattern whose exponent field `e` is not zero, freed of the
/// power of two: `|value| * 2^(150 - e) == 2^23 + f`, written in the units of
/// [`scaled`].
pub proof fn lemma_scaled_normal(bits: u32, e: nat, f: nat)
    requires
        1 <= e <= 150,
        f < FRACTION_SPAN,
        magnitude(bits) == e * FRACTION_SPAN + f,
    ensures
        scaled_magnitude(bits) * pow2((150 - e) as nat) == (FRACTION_SPAN + f) * unit(),
{
    let span: int = FRACTION_SPAN as int;
    assert(magnitude(bits) / span == e && magnitude(bits) % span == f) by (nonlinear_arith)
        requires
            magnitude(bits) == e * span + f,
            0 <= f < span,
            span == 0x80_0000,
    ;
    let low: int = pow2((e - 1) as nat) as int;
    let high: int = pow2((150 - e) as nat) as int;
    lemma_pow2_adds((e - 1) as nat, (150 - e) as nat);
    assert(unit() == low * high);
    assert(((span + f) * low) * high == (span + f) * (low * high)) by (nonlinear_arith);
}

/// The significand of a pattern: the fraction field, with the hidden bit in
/// front of it unless the pattern is subnormal.
pub open spec fn significand_of(bits: u32) -> int {
    if magnitude(bits) / (FRACTION_SPAN as int) == 0 {
        magnitude(bits) % (FRACTION_SPAN as int)
    } else {
        FRACTION_SPAN + magnitude(bits) % (FRACTION_SPAN as int)
    }
}

/// The exponent field of a pattern as it counts: a subnormal pattern counts
/// like the exponent one.
pub open spec fn exponent_of(bits: u32) -> int {
    if magnitude(bits) / (FRACTION_SPAN as int) == 0 {
        1
    } else {
        magnitude(bits) / (FRACTION_SPAN as int)
    }
}

/// The absolute value is the significand times a power of two.
pub proof fn lemma_scaled_by_parts(bits: u32)
    ensures
        scaled_magnitude(bits) == significand_of(bits) * pow2((exponent_of(bits) - 1) as nat),
        0 <= significand_of(bits) < 2 * FRACTION_SPAN,
        1 <= exponent_of(bits) <= 255,
        is_finite(bits) ==> exponent_of(bits) <= 254,
        significand_of(bits) == 0 <==> magnitude(bits) == 0,
{
    vstd::arithmetic::power2::lemma2_to64();
    if magnitude(bits) / (FRACTION_SPAN as int) == 0 {
        assert(significand_of(bits) * pow2(0) == significand_of(bits)) by (nonlinear_arith)
            requires
                pow2(0) == 1,
        ;
    }
}

/// The value of the pattern made of the exponent `e` and the significand
/// `q`.  A significand of two to the 24th stands for the first pattern under
/// the next exponent.
pub proof fn lemma_scaled_of_parts(bits: u32, e: int, q: int)
    requires
        1 <= e <= 254,
        0 <= q <= 2 * FRACTION_SPAN,
        e == 1 || FRACTION_SPAN <= q,
        magnitude(bits) == (e - 1) * FRACTION_SPAN + q,
    ensures
        scaled_magnitude(bits) == q * pow2((e - 1) as nat),
        magnitude(bits) <= INFINITY_BITS,
        magnitude(bits) == INFINITY_BITS <==> e == 254 && q == 2 * FRACTION_SPAN,
{
    let span: int = FRACTION_SPAN as int;
    vstd::arithmetic::power2::lemma2_to64();
    if q < span {
        assert(q * pow2(0) == q) by (nonlinear_arith)
            requires
                pow2(0) == 1,
        ;
    } else if q < 2 * span {
        assert(magnitude(bits) == e * span + (q - span));
        assert(magnitude(bits) / span == e && magnitude(bits) % span == q - span)
            by (nonlinear_arith)
            requires
                magnitude(bits) == e * span + (q - span),
                0 <= q - span < span,
                span == 0x80_0000,
        ;
    } else {
        assert(magnitude(bits) == (e + 1) * span + 0);
        assert(magnitude(bits) / span == e + 1 && magnitude(bits) % span == 0)
            by (nonlinear_arith)
            requires
                magnitude(bits) == (e + 1) * span,
                span == 0x80_0000,
        ;
        lemma_pow2_unfold(e as nat);
        assert(span * pow2(e as nat) == (2 * span) * pow2((e - 1) as nat)) by (nonlinear_arith)
            requires
                pow2(e as nat) == 2 * pow2((e - 1) as nat),
        ;
    }
}

/// Whether the pattern encodes a finite number.
pub fn finite(bits: u32) -> (r: bool)
    ensures
        r == is_finite(bits),
{
    if bits >= SIGN_BIT {
        bits - SIGN_BIT < INFINITY_BITS
    } else {
        bits < INFINITY_BITS
    }
}

/// Whether the pattern is a NaN.
pub fn nan(bits: u32) -> (r: bool)
    ensures
        r == is_nan(bits),
{
    if bits >= SIGN_BIT {
        bits - SIGN_BIT > INFINITY_BITS
    } else {
        bits > INFINITY_BITS
    }
}

/// The comparison key of a pattern.
pub fn key_of(bits: u32) -> (k: i64)
    ensures
        k == order_key(bits),
{
    if bits >= SIGN_BIT {
        let m: u32 = bits - SIGN_BIT;
        -(m as i64)
    } else {
        bits as i64
    }
}

/// `a < b` on the encoded numbers.
pub fn below(a: u32, b: u32) -> (r: bool)
    ensures
        r == less(a, b),
{
    if nan(a) || nan(b) {
        return false;
    }
    proof {
        lemma_order_key(a, b);
    }
    key_of(a) < key_of(b)
}

/// `a > b` on the encoded numbers.
pub fn above(a: u32, b: u32) -> (r: bool)
    ensures
        r == less(b, a),
{
    below(b, a)
}

/// `a >= b` on the encoded numbers.
pub fn at_least(a: u32, b: u32) -> (r: bool)
    ensures
        r == (!is_nan(a) && !is_nan(b) && scaled(a) >= scaled(b)),
{
    if nan(a) || nan(b) {
        return false;
    }
    proof {
        lemma_order_key(a, b);
    }
    key_of(a) >= key_of(b)
}

/// The significand of a pattern.
pub fn significand(bits: u32) -> (m: u32)
    ensures
        m == significand_of(bits),
{
    let mag: u32 = if bits >= SIGN_BIT {
        bits - SIGN_BIT
    } else {
        bits
    };
    if mag / FRACTION_SPAN == 0 {
        mag % FRACTION_SPAN
    } else {
        FRACTION_SPAN + mag % FRACTION_SPAN
    }
}

/// The exponent field of a pattern as it counts.
pub fn exponent(bits: u32) -> (e: u32)
    ensures
        e == exponent_of(bits),
{
    let mag: u32 = if bits >= SIGN_BIT {
        bits - SIGN_BIT
    } else {
        bits
    };
    if mag / FRACTION_SPAN == 0 {
        1
    } else {
        mag / FRACTION_SPAN
    }
}

} // verus!

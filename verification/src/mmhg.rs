//! Pressure in millimetres of mercury.
//!
//! One millimetre of mercury is 133.322 pascals.  The single-precision
//! number nearest to 133.322 is 8 737 391 / 65 536, and a pressure in pascals
//! is converted by dividing by that number and rounding the quotient to the
//! nearest single-precision number.  The divisor's significand is odd, so a
//! quotient never lies halfway between two of them.

use vstd::prelude::*;
use vstd::arithmetic::power2::{
    lemma2_to64, lemma2_to64_rest, lemma_pow2_adds, lemma_pow2_pos, lemma_pow2_strictly_increases,
    lemma_pow2_unfold, pow2,
};
use crate::decimal::power_of_two;
use crate::measure::{
    exponent, exponent_of, finite, is_finite, is_nan, is_negative, lemma_scaled_by_parts,
    lemma_scaled_magnitude_increases, lemma_scaled_of_parts, magnitude, scaled, scaled_magnitude,
    significand, significand_of, FRACTION_SPAN, INFINITY_BITS, SIGN_BIT,
};

verus! {

/// The pattern of the divisor: the single-precision number nearest to
/// 133.322.
pub const PASCALS_PER_MMHG: u32 = 0x4305_526F;

/// The significand of the divisor, which is `DIVISOR / 65536`.
pub const DIVISOR: u64 = 8_737_391;

/// Two to the 47th: a significand is doubled until it reaches this.
pub const TOP: u64 = 0x8000_0000_0000;

/// How often `m` is doubled until it is at least two to the 47th.
pub open spec fn normal_shift(m: int) -> nat
    decreases
        (if m < 0x8000_0000_0000int {
            0x8000_0000_0000int - m
        } else {
            0int
        }),
{
    if m <= 0 || m >= 0x8000_0000_0000int {
        0
    } else {
        1 + normal_shift(2 * m)
    }
}

/// The power of two by which the significand `m` is multiplied so that its
/// quotient by the divisor has exactly 24 bits.
pub open spec fn quotient_shift(m: int) -> int {
    let k: nat = normal_shift(m);
    if (m * pow2(k)) / (DIVISOR as int) >= 2 * FRACTION_SPAN {
        k - 1
    } else {
        k as int
    }
}

/// The exponent of the quotient, as it counts.  A quotient too small for a
/// full significand is subnormal and counts like the exponent one.
pub open spec fn mmhg_exponent(pressure: u32) -> int {
    let e: int = exponent_of(pressure) + 16 - quotient_shift(significand_of(pressure));
    if e >= 1 {
        e
    } else {
        1
    }
}

/// The number whose quotient by the divisor is the significand of the
/// result, before rounding.
pub open spec fn mmhg_numerator(pressure: u32) -> int {
    significand_of(pressure) * pow2(
        (exponent_of(pressure) + 16 - mmhg_exponent(pressure)) as nat,
    )
}

/// The magnitude of the quotient's pattern: the exponent, and the
/// significand rounded to the nearest.
pub open spec fn mmhg_magnitude(pressure: u32) -> int {
    let a: int = mmhg_numerator(pressure);
    let q: int = a / (DIVISOR as int);
    let r: int = a % (DIVISOR as int);
    (mmhg_exponent(pressure) - 1) * FRACTION_SPAN + q + if 2 * r > DIVISOR {
        1int
    } else {
        0int
    }
}

/// A pressure in pascals, in millimetres of mercury.  What is not a finite
/// number, and zero, stay as they are.
pub open spec fn mmhg_of(pressure: u32) -> u32 {
    if !is_finite(pressure) || magnitude(pressure) == 0 {
        pressure
    } else if is_negative(pressure) {
        (SIGN_BIT + mmhg_magnitude(pressure)) as u32
    } else {
        mmhg_magnitude(pressure) as u32
    }
}

/// Doubling `k` times multiplies by two to the `k`.
proof fn lemma_normal_shift(m: int, k: nat)
    requires
        0 < m,
        m * pow2(k) < 2 * TOP,
        TOP <= m * pow2(k),
        k == 0 || m * pow2((k - 1) as nat) < TOP,
    ensures
        normal_shift(m) == k,
    decreases k,
{
    lemma2_to64();
    if k == 0 {
        assert(m * pow2(0) == m) by (nonlinear_arith)
            requires
                pow2(0) == 1,
        ;
    } else {
        lemma_pow2_unfold(k);
        lemma_pow2_pos((k - 1) as nat);
        let h: int = pow2((k - 1) as nat) as int;
        assert(m <= m * h) by (nonlinear_arith)
            requires
                0 < m,
                1 <= h,
        ;
        assert((2 * m) * h == m * (2 * h)) by (nonlinear_arith);
        if k >= 2 {
            lemma_pow2_unfold((k - 1) as nat);
            let g: int = pow2((k - 2) as nat) as int;
            assert((2 * m) * g == m * (2 * g)) by (nonlinear_arith);
        }
        lemma_normal_shift(2 * m, (k - 1) as nat);
    }
}

/// Doubling by the normal shift brings a significand between two to the
/// 47th and two to the 48th.
pub proof fn lemma_normal_shift_range(m: int)
    requires
        0 < m < 2 * TOP,
    ensures
        TOP <= m * pow2(normal_shift(m)) < 2 * TOP,
    decreases
        (if m < 0x8000_0000_0000int {
            0x8000_0000_0000int - m
        } else {
            0int
        }),
{
    lemma2_to64();
    if m >= TOP {
        assert(m * pow2(0) == m) by (nonlinear_arith)
            requires
                pow2(0) == 1,
        ;
    } else {
        lemma_normal_shift_range(2 * m);
        let j: nat = normal_shift(2 * m);
        lemma_pow2_unfold(j + 1);
        assert(m * (2 * pow2(j)) == (2 * m) * pow2(j)) by (nonlinear_arith);
    }
}

/// The quotient of a shifted significand by the divisor has exactly 24
/// bits.
pub proof fn lemma_quotient_bits(m: int)
    requires
        0 < m < 2 * FRACTION_SPAN,
    ensures
        23 <= quotient_shift(m) <= 47,
        m * pow2(quotient_shift(m) as nat) < 2 * TOP,
        FRACTION_SPAN <= (m * pow2(quotient_shift(m) as nat)) / (DIVISOR as int) < 2
            * FRACTION_SPAN,
{
    let d: int = DIVISOR as int;
    let k0: nat = normal_shift(m);
    lemma_normal_shift_range(m);
    lemma2_to64();
    let a0: int = m * pow2(k0);
    // fewer than 24 doublings leave a significand below the top, more than
    // 47 take the smallest past it
    assert(24 <= k0 <= 47) by {
        if k0 < 24 {
            if k0 < 23 {
                lemma_pow2_strictly_increases(k0, 23);
            }
            assert(m * pow2(k0) < 0x100_0000 * 0x80_0000) by (nonlinear_arith)
                requires
                    0 < m < 0x100_0000,
                    0 < pow2(k0) <= 0x80_0000,
            ;
        }
        if k0 > 47 {
            lemma_pow2_adds(32, 16);
            if k0 > 48 {
                lemma_pow2_strictly_increases(48, k0);
            }
            assert(m * pow2(k0) >= 0x1_0000_0000_0000) by (nonlinear_arith)
                requires
                    1 <= m,
                    pow2(k0) >= 0x1_0000_0000_0000,
            ;
        }
    }
    let q0: int = a0 / d;
    let r0: int = a0 % d;
    assert(a0 == q0 * d + r0 && 0 <= r0 < d) by {
        vstd::arithmetic::div_mod::lemma_fundamental_div_mod(a0, d);
        vstd::arithmetic::div_mod::lemma_mod_pos_bound(a0, d);
    }
    assert(q0 * d == q0 * 8_737_391) by (nonlinear_arith)
        requires
            d == 8_737_391,
    ;
    if q0 >= 2 * FRACTION_SPAN {
        let a1: int = m * pow2((k0 - 1) as nat);
        lemma_pow2_unfold(k0);
        assert(a0 == 2 * a1) by (nonlinear_arith)
            requires
                a0 == m * pow2(k0),
                a1 == m * pow2((k0 - 1) as nat),
                pow2(k0) == 2 * pow2((k0 - 1) as nat),
        ;
        let q1: int = a1 / d;
        let r1: int = a1 % d;
        assert(a1 == q1 * d + r1 && 0 <= r1 < d) by {
            vstd::arithmetic::div_mod::lemma_fundamental_div_mod(a1, d);
            vstd::arithmetic::div_mod::lemma_mod_pos_bound(a1, d);
        }
        assert(q1 * d == q1 * 8_737_391) by (nonlinear_arith)
            requires
                d == 8_737_391,
        ;
    }
}

/// What the conversion computes, in one place: the exponent of the result,
/// the numerator and its quotient, and how they stand to the pressure.
pub proof fn lemma_mmhg_parts(pressure: u32)
    requires
        is_finite(pressure),
        magnitude(pressure) != 0,
    ensures
        1 <= mmhg_exponent(pressure) <= 247,
        0 <= mmhg_numerator(pressure) / (DIVISOR as int) < 2 * FRACTION_SPAN,
        mmhg_exponent(pressure) == 1 || FRACTION_SPAN <= mmhg_numerator(pressure) / (
        DIVISOR as int),
        scaled_magnitude(pressure) * 65536 == mmhg_numerator(pressure) * pow2(
            (mmhg_exponent(pressure) - 1) as nat,
        ),
        0 <= mmhg_magnitude(pressure) < INFINITY_BITS,
{
    let d: int = DIVISOR as int;
    let m: int = significand_of(pressure);
    let e: int = exponent_of(pressure);
    lemma_scaled_by_parts(pressure);
    lemma_quotient_bits(m);
    lemma2_to64();
    let k: int = quotient_shift(m);
    let e_out: int = mmhg_exponent(pressure);
    let sh: nat = (e + 16 - e_out) as nat;
    assert(0 <= e + 16 - e_out <= k);
    let a: int = mmhg_numerator(pressure);
    assert(a == m * pow2(sh));
    let top: int = m * pow2(k as nat);
    if sh < k {
        lemma_pow2_strictly_increases(sh, k as nat);
    }
    lemma_pow2_pos(sh);
    assert(0 < a <= top) by (nonlinear_arith)
        requires
            a == m * pow2(sh),
            top == m * pow2(k as nat),
            0 < m,
            0 < pow2(sh) <= pow2(k as nat),
    ;
    let q: int = a / d;
    let r: int = a % d;
    assert(a == q * d + r && 0 <= r < d) by {
        vstd::arithmetic::div_mod::lemma_fundamental_div_mod(a, d);
        vstd::arithmetic::div_mod::lemma_mod_pos_bound(a, d);
    }
    let qt: int = top / d;
    let rt: int = top % d;
    assert(top == qt * d + rt && 0 <= rt < d) by {
        vstd::arithmetic::div_mod::lemma_fundamental_div_mod(top, d);
        vstd::arithmetic::div_mod::lemma_mod_pos_bound(top, d);
    }
    assert(q * d == q * 8_737_391 && qt * d == qt * 8_737_391) by (nonlinear_arith)
        requires
            d == 8_737_391,
    ;
    assert(0 <= q <= qt);
    // the pressure in the units of the quotient
    lemma_pow2_adds(sh, (e_out - 1) as nat);
    lemma_pow2_adds((e - 1) as nat, 16);
    assert(scaled_magnitude(pressure) * 65536 == a * pow2((e_out - 1) as nat))
        by (nonlinear_arith)
        requires
            scaled_magnitude(pressure) == m * pow2((e - 1) as nat),
            a == m * pow2(sh),
            pow2(16) == 65536,
            pow2(((e - 1) as nat + 16) as nat) == pow2((e - 1) as nat) * pow2(16),
            pow2((sh + (e_out - 1) as nat) as nat) == pow2(sh) * pow2((e_out - 1) as nat),
            (sh + (e_out - 1) as nat) as nat == ((e - 1) as nat + 16) as nat,
    ;
}

/// How far the number of `candidate` is from the quotient of `pressure` by
/// the divisor, in units of two to the minus 149 and multiplied by the
/// divisor's significand.
pub open spec fn distance(candidate: u32, pressure: u32) -> int {
    let gap: int = scaled(candidate) * DIVISOR - scaled(pressure) * 65536;
    if gap < 0 {
        -gap
    } else {
        gap
    }
}

/// The same for magnitudes.
spec fn magnitude_distance(candidate: u32, pressure: u32) -> int {
    let gap: int = scaled_magnitude(candidate) * DIVISOR - scaled_magnitude(pressure) * 65536;
    if gap < 0 {
        -gap
    } else {
        gap
    }
}

/// A pattern with the given magnitude.
spec fn pattern_of(magnitude: int) -> u32 {
    magnitude as u32
}

/// No magnitude is nearer to the quotient than the one computed.
proof fn lemma_nearest_magnitude(pressure: u32, other: u32)
    requires
        is_finite(pressure),
        magnitude(pressure) != 0,
    ensures
        magnitude_distance(pattern_of(mmhg_magnitude(pressure)), pressure) <= magnitude_distance(
            other,
            pressure,
        ),
{
    let d: int = DIVISOR as int;
    lemma_mmhg_parts(pressure);
    let e_out: int = mmhg_exponent(pressure);
    let a: int = mmhg_numerator(pressure);
    let q: int = a / d;
    let r: int = a % d;
    let p: int = pow2((e_out - 1) as nat) as int;
    let n: int = scaled_magnitude(pressure) * 65536;
    assert(a == q * d + r && 0 <= r < d) by {
        vstd::arithmetic::div_mod::lemma_fundamental_div_mod(a, d);
        vstd::arithmetic::div_mod::lemma_mod_pos_bound(a, d);
    }
    lemma_pow2_pos((e_out - 1) as nat);
    let low: u32 = pattern_of((e_out - 1) * FRACTION_SPAN + q);
    let high: u32 = pattern_of((e_out - 1) * FRACTION_SPAN + q + 1);
    let result: u32 = pattern_of(mmhg_magnitude(pressure));
    lemma_scaled_of_parts(low, e_out, q);
    lemma_scaled_of_parts(high, e_out, q + 1);
    let vl: int = scaled_magnitude(low);
    let vh: int = scaled_magnitude(high);
    let vo: int = scaled_magnitude(other);
    assert(vl == q * p && vh == (q + 1) * p);
    // the quotient lies between the two candidates
    assert(n - vl * d == r * p && vh * d - n == (d - r) * p && 0 <= r * p && 0 < (d - r) * p)
        by (nonlinear_arith)
        requires
            n == a * p,
            a == q * d + r,
            vl == q * p,
            vh == (q + 1) * p,
            0 <= r < d,
            0 < p,
    ;
    assert((2 * r > d) ==> (d - r) * p <= r * p) by (nonlinear_arith)
        requires
            0 < p,
    ;
    assert(!(2 * r > d) ==> r * p <= (d - r) * p) by (nonlinear_arith)
        requires
            0 < p,
    ;
    if magnitude(other) <= magnitude(low) {
        if magnitude(other) < magnitude(low) {
            lemma_scaled_magnitude_increases(other, low);
        }
        assert(vo * d <= vl * d) by (nonlinear_arith)
            requires
                vo <= vl,
                0 < d,
        ;
    } else {
        if magnitude(high) < magnitude(other) {
            lemma_scaled_magnitude_increases(high, other);
        }
        assert(vh * d <= vo * d) by (nonlinear_arith)
            requires
                vh <= vo,
                0 < d,
        ;
    }
}

/// The conversion gives the nearest number there is: for a finite pressure
/// the result is finite, has the sign of the pressure, and no
/// single-precision number, finite or infinite, is nearer to the pressure
/// divided by `DIVISOR / 65536` than the result is.
pub proof fn law_mmhg_is_nearest(pressure: u32, other: u32)
    requires
        is_finite(pressure),
        !is_nan(other),
    ensures
        is_finite(mmhg_of(pressure)),
        is_negative(mmhg_of(pressure)) == is_negative(pressure),
        distance(mmhg_of(pressure), pressure) <= distance(other, pressure),
{
    let d: int = DIVISOR as int;
    if magnitude(pressure) == 0 {
        lemma_scaled_by_parts(pressure);
        assert(scaled_magnitude(pressure) == 0) by (nonlinear_arith)
            requires
                scaled_magnitude(pressure) == significand_of(pressure) * pow2(
                    (exponent_of(pressure) - 1) as nat,
                ),
                significand_of(pressure) == 0,
        ;
    } else {
        lemma_mmhg_parts(pressure);
        let result: u32 = pattern_of(mmhg_magnitude(pressure));
        let zero: u32 = 0;
        lemma_nearest_magnitude(pressure, other);
        lemma_nearest_magnitude(pressure, zero);
        assert(scaled_magnitude(zero) == 0);
        assert(magnitude(mmhg_of(pressure)) == mmhg_magnitude(pressure));
        assert(scaled_magnitude(mmhg_of(pressure)) == scaled_magnitude(result));
        let vr: int = scaled_magnitude(result);
        let vo: int = scaled_magnitude(other);
        let n: int = scaled_magnitude(pressure) * 65536;
        lemma_scaled_by_parts(pressure);
        lemma_pow2_pos((exponent_of(pressure) - 1) as nat);
        assert(0 <= n) by (nonlinear_arith)
            requires
                n == scaled_magnitude(pressure) * 65536,
                scaled_magnitude(pressure) == significand_of(pressure) * pow2(
                    (exponent_of(pressure) - 1) as nat,
                ),
                0 <= significand_of(pressure),
        ;
        lemma_scaled_by_parts(other);
        lemma_scaled_by_parts(result);
        lemma_pow2_pos((exponent_of(other) - 1) as nat);
        lemma_pow2_pos((exponent_of(result) - 1) as nat);
        assert(0 <= vo * d && 0 <= vr * d) by (nonlinear_arith)
            requires
                vo == significand_of(other) * pow2((exponent_of(other) - 1) as nat),
                vr == significand_of(result) * pow2((exponent_of(result) - 1) as nat),
                0 <= significand_of(other),
                0 <= significand_of(result),
                0 < d,
        ;
        assert((-vo) * d == -(vo * d) && (-vr) * d == -(vr * d)) by (nonlinear_arith);
        assert((-scaled_magnitude(pressure)) * 65536 == -n) by (nonlinear_arith)
            requires
                n == scaled_magnitude(pressure) * 65536,
        ;
    }
}

/// A pressure in pascals, in millimetres of mercury.
pub fn pressure_in_mmhg(pressure: u32) -> (mmhg: u32)
    ensures
        mmhg == mmhg_of(pressure),
{
    if !finite(pressure) {
        return pressure;
    }
    let m: u64 = significand(pressure) as u64;
    if m == 0 {
        proof {
            lemma_scaled_by_parts(pressure);
        }
        return pressure;
    }
    let e: u32 = exponent(pressure);
    proof {
        lemma_scaled_by_parts(pressure);
        lemma2_to64();
        lemma2_to64_rest();
    }
    let mut a: u64 = m;
    let mut k0: u32 = 0;
    while a < TOP
        invariant
            0 < m < 0x100_0000,
            a == m * pow2(k0 as nat),
            0 < a < 2 * TOP,
            k0 <= 47,
            k0 == 0 || m * pow2((k0 - 1) as nat) < TOP,
            a < TOP ==> k0 < 47,
        decreases 2 * TOP - a,
    {
        proof {
            lemma_pow2_unfold((k0 + 1) as nat);
            assert(m * (2 * pow2(k0 as nat)) == 2 * (m * pow2(k0 as nat))) by (nonlinear_arith);
            if k0 + 1 == 47 {
                // forty-seven doublings take any significand past the top
                lemma2_to64();
                lemma_pow2_adds(32, 15);
                assert(pow2(47) == 0x8000_0000_0000);
                assert(m * pow2(47) >= pow2(47)) by (nonlinear_arith)
                    requires
                        1 <= m,
                ;
            }
        }
        a = a * 2;
        k0 = k0 + 1;
    }
    proof {
        lemma_normal_shift(m as int, k0 as nat);
        // a significand of fewer than 25 bits is doubled at least 24 times
        if k0 < 24 {
            if k0 < 23 {
                lemma_pow2_strictly_increases(k0 as nat, 23);
            }
            assert(m * pow2(k0 as nat) < 0x100_0000 * 0x80_0000) by (nonlinear_arith)
                requires
                    0 < m < 0x100_0000,
                    0 < pow2(k0 as nat) <= 0x80_0000,
            ;
        }
    }
    let k: u32 = if a / DIVISOR >= 0x100_0000 {
        k0 - 1
    } else {
        k0
    };
    let e_out: u32 = if e + 16 > k {
        e + 16 - k
    } else {
        1
    };
    let shift: u32 = e + 16 - e_out;
    let scale: u128 = power_of_two(shift);
    proof {
        if shift < k0 {
            lemma_pow2_strictly_increases(shift as nat, k0 as nat);
        }
        assert(m * pow2(shift as nat) <= m * pow2(k0 as nat)) by (nonlinear_arith)
            requires
                0 < m,
                pow2(shift as nat) <= pow2(k0 as nat),
        ;
        lemma_pow2_pos(shift as nat);
        assert(pow2(shift as nat) <= m * pow2(shift as nat)) by (nonlinear_arith)
            requires
                1 <= m,
                0 < pow2(shift as nat),
        ;
    }
    let num: u64 = m * (scale as u64);
    let quo: u64 = num / DIVISOR;
    let rem: u64 = num % DIVISOR;
    let rounded: u64 = if 2 * rem > DIVISOR {
        quo + 1
    } else {
        quo
    };
    let mag: u32 = (e_out - 1) * FRACTION_SPAN + rounded as u32;
    if pressure >= SIGN_BIT {
        SIGN_BIT + mag
    } else {
        mag
    }
}

} // verus!

//! Decimal text of a measurement, to two places.
//!
//! The number behind a finite bit pattern is a fraction with a power of two
//! below the line, so its hundredths can be rounded in integer arithmetic:
//! to the nearest, a tie going to the even neighbour.

use vstd::prelude::*;
use vstd::string::{StrSliceExecFns, StringExecFns};
use vstd::arithmetic::power2::{
    lemma2_to64, lemma2_to64_rest, lemma_pow2_adds, lemma_pow2_pos, lemma_pow2_strictly_increases,
    lemma_pow2_unfold, pow2,
};
use vstd::arithmetic::div_mod::lemma_fundamental_div_mod_converse;
use crate::measure::{
    exponent, finite, is_finite, is_nan, is_negative, lemma_scaled_by_parts, nan,
    scaled_magnitude, significand, unit, SIGN_BIT,
};

verus! {

/// `n / d` rounded to the nearest integer; halfway between two, the even one.
pub open spec fn round_half_even(n: int, d: int) -> int {
    let q: int = n / d;
    let r: int = n % d;
    if 2 * r > d || (2 * r == d && q % 2 == 1) {
        q + 1
    } else {
        q
    }
}

/// The absolute value of the encoded number in hundredths, rounded.
pub open spec fn hundredths(bits: u32) -> int {
    round_half_even(scaled_magnitude(bits) * 100, unit())
}

/// The character of one decimal digit.
pub open spec fn digit(d: int) -> char {
    if d == 0 {
        '0'
    } else if d == 1 {
        '1'
    } else if d == 2 {
        '2'
    } else if d == 3 {
        '3'
    } else if d == 4 {
        '4'
    } else if d == 5 {
        '5'
    } else if d == 6 {
        '6'
    } else if d == 7 {
        '7'
    } else if d == 8 {
        '8'
    } else {
        '9'
    }
}

/// The decimal digits of a natural number, without leading zeros.
pub open spec fn digits_of(n: nat) -> Seq<char>
    decreases n,
{
    if n < 10 {
        seq![digit(n as int)]
    } else {
        digits_of(n / 10).push(digit((n % 10) as int))
    }
}

/// The text of a measurement with two decimal places: a minus sign under a
/// set sign bit, the whole part, a point and two digits.  An infinite value
/// reads `inf`, a NaN reads `NaN`.
pub open spec fn two_decimals_of(bits: u32) -> Seq<char> {
    if is_nan(bits) {
        "NaN"@
    } else if !is_finite(bits) {
        if is_negative(bits) {
            "-inf"@
        } else {
            "inf"@
        }
    } else {
        let h: int = hundredths(bits);
        let sign: Seq<char> = if is_negative(bits) {
            "-"@
        } else {
            ""@
        };
        sign + digits_of((h / 100) as nat) + "."@ + seq![digit((h % 100) / 10), digit(h % 10)]
    }
}

/// The decimal text of an integer, with a minus sign where it is negative.
pub open spec fn integer_text_of(n: int) -> Seq<char> {
    if n < 0 {
        "-"@ + digits_of((-n) as nat)
    } else {
        digits_of(n as nat)
    }
}

/// `text` behind as many spaces as it lacks to `width` characters.
pub open spec fn right_aligned_of(text: Seq<char>, width: nat) -> Seq<char> {
    if text.len() >= width {
        text
    } else {
        Seq::new((width - text.len()) as nat, |i: int| ' ') + text
    }
}

/// Two to the power of `k`.
pub fn power_of_two(k: u32) -> (p: u128)
    requires
        k <= 127,
    ensures
        p == pow2(k as nat),
{
    let mut p: u128 = 1;
    let mut i: u32 = 0;
    proof {
        lemma2_to64();
    }
    while i < k
        invariant
            i <= k <= 127,
            p == pow2(i as nat),
        decreases k - i,
    {
        proof {
            lemma_pow2_unfold((i + 1) as nat);
            lemma2_to64();
            lemma2_to64_rest();
            lemma_pow2_adds(64, 63);
            if i + 1 < 127 {
                lemma_pow2_strictly_increases((i + 1) as nat, 127);
            }
            assert(pow2(127) == 0x8000_0000_0000_0000_0000_0000_0000_0000) by {
                assert(pow2(64) == 0x1_0000_0000_0000_0000);
                assert(pow2(63) == 0x8000_0000_0000_0000);
            }
        }
        p = p * 2;
        i = i + 1;
    }
    p
}

/// Rounding when the line is a multiple of the unit: nothing is cut off.
proof fn lemma_round_whole(m: int, k: nat, low: nat)
    requires
        0 <= m,
        low == 149 + k,
    ensures
        round_half_even(m * pow2(low) * 100, unit()) == m * pow2(k) * 100,
{
    let u: int = unit();
    let p: int = pow2(k) as int;
    lemma_pow2_adds(149, k);
    lemma_pow2_pos(149);
    assert(m * pow2(low) * 100 == (m * p * 100) * u + 0) by (nonlinear_arith)
        requires
            pow2(low) == u * p,
    ;
    lemma_fundamental_div_mod_converse(m * pow2(low) * 100, u, m * p * 100, 0);
}

/// Rounding when the unit is `2^s` times the power under the significand:
/// the power cancels.
proof fn lemma_round_fraction(m: int, s: nat, low: nat)
    requires
        0 <= m,
        1 <= s,
        low + s == 149,
    ensures
        round_half_even(m * pow2(low) * 100, unit()) == round_half_even(m * 100, pow2(s) as int),
{
    let u: int = unit();
    let p: int = pow2(low) as int;
    let d: int = pow2(s) as int;
    lemma_pow2_adds(low, s);
    lemma_pow2_pos(low);
    lemma_pow2_pos(s);
    let t: int = m * 100;
    let q: int = t / d;
    let r: int = t % d;
    assert(t == q * d + r && 0 <= r < d) by {
        vstd::arithmetic::div_mod::lemma_fundamental_div_mod(t, d);
        vstd::arithmetic::div_mod::lemma_mod_pos_bound(t, d);
    }
    assert(m * p * 100 == q * u + r * p && 0 <= r * p < u) by (nonlinear_arith)
        requires
            u == p * d,
            t == m * 100,
            t == q * d + r,
            0 <= r < d,
            0 < p,
    ;
    lemma_fundamental_div_mod_converse(m * p * 100, u, q, r * p);
    assert((2 * (r * p) > u) == (2 * r > d) && (2 * (r * p) == u) == (2 * r == d))
        by (nonlinear_arith)
        requires
            u == p * d,
            0 < p,
    ;
}

/// The absolute value of a finite measurement in hundredths, rounded: the
/// whole part and the two places behind the point.
pub fn rounded_hundredths(bits: u32) -> (parts: (u128, u8))
    requires
        is_finite(bits),
    ensures
        parts.1 < 100,
        parts.0 * 100 + parts.1 == hundredths(bits),
{
    let m: u32 = significand(bits);
    let e: u32 = exponent(bits);
    proof {
        lemma_scaled_by_parts(bits);
        lemma2_to64();
        lemma2_to64_rest();
    }
    if e >= 150 {
        let k: u32 = e - 150;
        let p: u128 = power_of_two(k);
        proof {
            lemma_round_whole(m as int, k as nat, (e - 1) as nat);
            lemma_pow2_adds(64, 40);
            if k < 104 {
                lemma_pow2_strictly_increases(k as nat, 104);
            }
            assert(pow2(104) == 0x100_0000_0000_0000_0000_0000_0000);
            assert(m * p < 0x1_0000_0000_0000_0000_0000_0000_0000_0000) by (nonlinear_arith)
                requires
                    0 <= m < 0x100_0000,
                    0 <= p <= 0x100_0000_0000_0000_0000_0000_0000,
            ;
        }
        let whole: u128 = (m as u128) * p;
        (whole, 0)
    } else {
        let s: u32 = 150 - e;
        proof {
            lemma_round_fraction(m as int, s as nat, (e - 1) as nat);
        }
        if s >= 32 {
            proof {
                if s > 32 {
                    lemma_pow2_strictly_increases(32, s as nat);
                }
                let d: int = pow2(s as nat) as int;
                let t: int = m * 100;
                assert(0 <= 2 * t < d);
                vstd::arithmetic::div_mod::lemma_fundamental_div_mod_converse(t, d, 0, t);
            }
            (0, 0)
        } else {
            let wide: u128 = power_of_two(s);
            proof {
                lemma_pow2_pos(s as nat);
                lemma_pow2_strictly_increases(s as nat, 32);
            }
            let d: u64 = wide as u64;
            let t: u64 = (m as u64) * 100;
            let q: u64 = t / d;
            let r: u64 = t % d;
            let h: u64 = if 2 * r > d || (2 * r == d && q % 2 == 1) {
                q + 1
            } else {
                q
            };
            ((h / 100) as u128, (h % 100) as u8)
        }
    }
}

/// The text of one decimal digit.
pub fn digit_text(d: u8) -> (text: &'static str)
    requires
        d < 10,
    ensures
        text@ == seq![digit(d as int)],
{
    proof {
        reveal_strlit("0");
        reveal_strlit("1");
        reveal_strlit("2");
        reveal_strlit("3");
        reveal_strlit("4");
        reveal_strlit("5");
        reveal_strlit("6");
        reveal_strlit("7");
        reveal_strlit("8");
        reveal_strlit("9");
    }
    let text: &'static str = if d == 0 {
        "0"
    } else if d == 1 {
        "1"
    } else if d == 2 {
        "2"
    } else if d == 3 {
        "3"
    } else if d == 4 {
        "4"
    } else if d == 5 {
        "5"
    } else if d == 6 {
        "6"
    } else if d == 7 {
        "7"
    } else if d == 8 {
        "8"
    } else {
        "9"
    };
    assert(text@ =~= seq![digit(d as int)]);
    text
}

/// The decimal digits of `n`.
pub fn decimal(n: u128) -> (text: String)
    ensures
        text@ == digits_of(n as nat),
    decreases n,
{
    if n < 10 {
        digit_text(n as u8).to_owned()
    } else {
        let mut text: String = decimal(n / 10);
        text.append(digit_text((n % 10) as u8));
        assert(text@ =~= digits_of((n / 10) as nat).push(digit((n % 10) as int)));
        text
    }
}

/// The text of a measurement with two decimal places.
pub fn two_decimals(bits: u32) -> (text: String)
    ensures
        text@ == two_decimals_of(bits),
{
    if nan(bits) {
        "NaN".to_owned()
    } else if !finite(bits) {
        if bits >= SIGN_BIT {
            "-inf".to_owned()
        } else {
            "inf".to_owned()
        }
    } else {
        let parts: (u128, u8) = rounded_hundredths(bits);
        let whole: u128 = parts.0;
        let cents: u8 = parts.1;
        let mut text: String = if bits >= SIGN_BIT {
            "-".to_owned()
        } else {
            "".to_owned()
        };
        let digits: String = decimal(whole);
        text.append(digits.as_str());
        text.append(".");
        text.append(digit_text(cents / 10));
        text.append(digit_text(cents % 10));
        proof {
            let h: int = hundredths(bits);
            assert(h / 100 == whole && h % 100 == cents && h % 10 == cents % 10);
            assert(text@ =~= two_decimals_of(bits));
        }
        text
    }
}

/// `text` moved to the right edge of a field of `width` characters.
pub fn right_aligned(text: &str, width: usize) -> (field: String)
    ensures
        field@ == right_aligned_of(text@, width as nat),
{
    let length: usize = text.unicode_len();
    let mut field: String = String::new();
    if length < width {
        let missing: usize = width - length;
        let mut i: usize = 0;
        proof {
            reveal_strlit(" ");
        }
        while i < missing
            invariant
                i <= missing,
                " "@ == seq![' '],
                field@ == Seq::new(i as nat, |j: int| ' '),
            decreases missing - i,
        {
            field.append(" ");
            i = i + 1;
            assert(field@ =~= Seq::new(i as nat, |j: int| ' '));
        }
    }
    field.append(text);
    assert(field@ =~= right_aligned_of(text@, width as nat));
    field
}

/// The decimal text of `n`.
pub fn integer_text(n: i64) -> (text: String)
    ensures
        text@ == integer_text_of(n as int),
{
    if n < 0 {
        let magnitude: u128 = (-(n as i128)) as u128;
        let mut text: String = "-".to_owned();
        let digits: String = decimal(magnitude);
        text.append(digits.as_str());
        text
    } else {
        decimal(n as u128)
    }
}

} // verus!

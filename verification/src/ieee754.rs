//! IEEE-754 bit patterns, written and read with integer arithmetic only.
//!
//! The display takes its temperature as a binary32 number and the CPU
//! sampler hands out its busy fraction as a binary64 number. Both cross
//! this crate as plain bit patterns; the functions here give them their
//! numeric meaning.

use vstd::prelude::*;
use vstd::arithmetic::power2::{
    pow2,
    lemma2_to64,
    lemma2_to64_rest,
    lemma_pow2_unfold,
    lemma_pow2_pos,
    lemma_pow2_strictly_increases,
};
use crate::rounding::{div_round, div_round_even};

verus! {

/// Exponent bias of binary32.
pub const BINARY32_BIAS: u32 = 127;

/// The value of the hidden leading bit of a normal binary32 significand.
pub const BINARY32_HIDDEN_BIT: u32 = 0x80_0000;

/// The sign bit of a binary32 pattern.
pub open spec fn binary32_is_negative(bits: u32) -> bool {
    bits >= 0x8000_0000
}

/// The biased exponent field of a binary32 pattern.
pub open spec fn binary32_exponent(bits: u32) -> int {
    (bits as int / 0x80_0000) % 0x100
}

/// The fraction field of a binary32 pattern.
pub open spec fn binary32_fraction(bits: u32) -> int {
    bits as int % 0x80_0000
}

/// `bits` is the pattern of the finite, non-negative binary32 number whose
/// value is exactly the integer `n`.
///
/// A normal pattern with biased exponent `e` and fraction `f` has the value
/// `(2^23 + f) * 2^(e - 150)`; the all-zero pattern is zero. Subnormal
/// patterns other than zero lie strictly between 0 and 1 and denote no
/// integer.
pub open spec fn binary32_denotes(bits: u32, n: nat) -> bool {
    let e = binary32_exponent(bits);
    let f = binary32_fraction(bits);
    &&& !binary32_is_negative(bits)
    &&& if e == 0 {
        f == 0 && n == 0
    } else if e == 0xff {
        false
    } else if e <= 150 {
        0x80_0000 + f == n * pow2((150 - e) as nat)
    } else {
        n == (0x80_0000 + f) * pow2((e - 150) as nat)
    }
}

/// The position of the highest set bit of `n`; 0 for `n < 2`.
pub open spec fn floor_log2(n: nat) -> nat
    decreases n,
{
    if n < 2 {
        0
    } else {
        1 + floor_log2(n / 2)
    }
}

/// The binary32 pattern of the integer `n`, in closed form.
pub open spec fn binary32_of_u8(n: u8) -> u32 {
    if n == 0 {
        0
    } else {
        let e = floor_log2(n as nat);
        ((127 + e) * 0x80_0000 + (n - pow2(e)) * pow2((23 - e) as nat)) as u32
    }
}

/// `floor_log2(n)` is the exponent of the power of two at or below `n`.
pub proof fn lemma_floor_log2_brackets(n: nat)
    requires
        n > 0,
    ensures
        pow2(floor_log2(n)) <= n < 2 * pow2(floor_log2(n)),
    decreases n,
{
    lemma2_to64();
    if n >= 2 {
        lemma_floor_log2_brackets(n / 2);
        lemma_pow2_unfold(floor_log2(n));
    }
}

/// `floor_log2` of a byte is at most 7.
pub proof fn lemma_floor_log2_of_byte(n: u8)
    ensures
        floor_log2(n as nat) <= 7,
{
    reveal_with_fuel(floor_log2, 9);
}

/// The closed form is the pattern of a number that has the value `n`: the
/// encoding loses nothing.
pub proof fn lemma_binary32_of_u8_denotes(n: u8)
    ensures
        binary32_denotes(binary32_of_u8(n), n as nat),
{
    if n != 0 {
        let e = floor_log2(n as nat);
        let low = pow2((23 - e) as nat);
        lemma_floor_log2_of_byte(n);
        lemma_floor_log2_brackets(n as nat);
        lemma2_to64();
        vstd::arithmetic::power2::lemma_pow2_adds(e, (23 - e) as nat);
        lemma_pow2_pos((23 - e) as nat);
        let m = (n - pow2(e)) * low;
        assert(0 <= m < pow2(e) * low) by (nonlinear_arith)
            requires
                m == (n - pow2(e)) * low,
                0 <= n - pow2(e) < pow2(e),
                low > 0,
        ;
        assert(0x80_0000 + m == n * low) by (nonlinear_arith)
            requires
                m == (n - pow2(e)) * low,
                pow2(e) * low == 0x80_0000,
        ;
        let bits = binary32_of_u8(n);
        assert(bits as int == (127 + e) * 0x80_0000 + m);
        assert(binary32_exponent(bits) == 127 + e);
        assert(binary32_fraction(bits) == m);
    }
}

/// A pattern denotes one integer at most.
pub proof fn lemma_binary32_denotes_one_value(bits: u32, n: nat, m: nat)
    requires
        binary32_denotes(bits, n),
        binary32_denotes(bits, m),
    ensures
        n == m,
{
    let e = binary32_exponent(bits);
    if 0 < e <= 150 {
        let unit = pow2((150 - e) as nat);
        lemma_pow2_pos((150 - e) as nat);
        assert(n == m) by (nonlinear_arith)
            requires
                n * unit == m * unit,
                unit > 0,
        ;
    }
}

/// Different bytes have different patterns.
pub proof fn lemma_binary32_of_u8_is_injective(a: u8, b: u8)
    requires
        binary32_of_u8(a) == binary32_of_u8(b),
    ensures
        a == b,
{
    lemma_binary32_of_u8_denotes(a);
    lemma_binary32_of_u8_denotes(b);
    lemma_binary32_denotes_one_value(binary32_of_u8(a), a as nat, b as nat);
}

/// Of two normal patterns that denote the same integer, neither has the
/// smaller exponent: it would need a significand of twice the size.
proof fn lemma_binary32_exponent_not_below(a: u32, b: u32, n: nat)
    requires
        binary32_denotes(a, n),
        binary32_denotes(b, n),
        0 < binary32_exponent(a) <= 150,
        0 < binary32_exponent(b) <= 150,
    ensures
        binary32_exponent(a) >= binary32_exponent(b),
{
    let ea = binary32_exponent(a);
    let eb = binary32_exponent(b);
    if ea < eb {
        let low = pow2((150 - eb) as nat);
        let gap = pow2((eb - ea) as nat);
        vstd::arithmetic::power2::lemma_pow2_adds((150 - eb) as nat, (eb - ea) as nat);
        lemma2_to64();
        lemma_pow2_strictly_increases(0, (eb - ea) as nat);
        assert(n * (low * gap) >= 2 * (n * low)) by (nonlinear_arith)
            requires
                gap >= 2,
                n >= 0,
                low >= 0,
        ;
    }
}

/// An integer below `2^24` has one pattern only: whatever denotes it is the
/// same thirty-two bits.
pub proof fn lemma_binary32_denotes_unique(a: u32, b: u32, n: nat)
    requires
        binary32_denotes(a, n),
        binary32_denotes(b, n),
        n < 0x100_0000,
    ensures
        a == b,
{
    let ea = binary32_exponent(a);
    let eb = binary32_exponent(b);
    lemma_binary32_is_normal(a, n);
    lemma_binary32_is_normal(b, n);
    if n > 0 {
        lemma_binary32_exponent_not_below(a, b, n);
        lemma_binary32_exponent_not_below(b, a, n);
    }
}

/// The pattern of zero is all zeros, and the pattern of a positive integer
/// below `2^24` is normal with a biased exponent of at most 150.
proof fn lemma_binary32_is_normal(a: u32, n: nat)
    requires
        binary32_denotes(a, n),
        n < 0x100_0000,
    ensures
        n == 0 ==> a == 0,
        n > 0 ==> 0 < binary32_exponent(a) <= 150,
{
    let e = binary32_exponent(a);
    let f = binary32_fraction(a);
    if e != 0 {
        if e <= 150 {
            if n == 0 {
                assert(n * pow2((150 - e) as nat) == 0) by (nonlinear_arith)
                    requires
                        n == 0,
                ;
            }
        } else {
            lemma2_to64();
            lemma_pow2_strictly_increases(0, (e - 150) as nat);
            assert((0x80_0000 + f) * pow2((e - 150) as nat) >= 0x100_0000) by (nonlinear_arith)
                requires
                    f >= 0,
                    pow2((e - 150) as nat) >= 2,
            ;
        }
    }
}

/// Encodes a small integer as the binary32 number of the same value.
///
/// Every `u8` is exactly representable, so no rounding takes place.
pub fn encode_binary32(n: u8) -> (bits: u32)
    ensures
        bits == binary32_of_u8(n),
{
    if n == 0 {
        return 0;
    }
    let mut rest: u32 = n as u32;
    let mut e: u32 = 0;
    let mut top: u32 = 1;
    let mut scale: u32 = BINARY32_HIDDEN_BIT;
    proof {
        lemma2_to64();
    }
    while rest >= 2
        invariant
            1 <= rest <= 255,
            e <= 7,
            top == pow2(e as nat),
            scale == pow2((23 - e) as nat),
            top * scale == 0x80_0000,
            rest * top <= n < (rest + 1) * top,
            floor_log2(n as nat) == e + floor_log2(rest as nat),
        decreases rest,
    {
        proof {
            lemma2_to64();
            assert(2 * top <= rest * top) by (nonlinear_arith)
                requires
                    rest >= 2,
                    top >= 0,
            ;
            assert(e <= 6) by {
                if e == 7 {
                    assert(top == 128);
                }
            }
            lemma_pow2_unfold((e + 1) as nat);
            lemma_pow2_unfold((23 - e) as nat);
            assert((rest / 2) * (2 * top) <= rest * top) by (nonlinear_arith)
                requires
                    rest >= 0,
                    top >= 0,
            ;
            assert((rest / 2 + 1) * (2 * top) >= (rest + 1) * top) by (nonlinear_arith)
                requires
                    rest >= 0,
                    top >= 0,
            ;
            assert((2 * top) * (scale / 2) == top * scale) by (nonlinear_arith)
                requires
                    scale % 2 == 0,
            ;
        }
        rest = rest / 2;
        e = e + 1;
        top = top * 2;
        scale = scale / 2;
    }
    proof {
        lemma_pow2_pos((23 - e) as nat);
        assert(rest * top == top && (rest + 1) * top == 2 * top) by (nonlinear_arith)
            requires
                rest == 1,
        ;
        assert((n - top) * scale < top * scale) by (nonlinear_arith)
            requires
                n - top < top,
                scale > 0,
        ;
        assert((n - top) * scale >= 0) by (nonlinear_arith)
            requires
                n - top >= 0,
                scale > 0,
        ;
    }
    (BINARY32_BIAS + e) * BINARY32_HIDDEN_BIT + (n as u32 - top) * scale
}

/// Biased exponent of binary64 infinities and NaNs.
pub const BINARY64_EXPONENT_SPECIAL: u64 = 0x7ff;

/// The value of the hidden leading bit of a normal binary64 significand.
pub const BINARY64_HIDDEN_BIT: u64 = 0x10_0000_0000_0000;

/// The sign bit of a binary64 pattern.
pub open spec fn binary64_is_negative(bits: u64) -> bool {
    bits >= 0x8000_0000_0000_0000
}

/// The biased exponent field of a binary64 pattern.
pub open spec fn binary64_exponent(bits: u64) -> int {
    (bits as int / 0x10_0000_0000_0000) % 0x800
}

/// The fraction field of a binary64 pattern.
pub open spec fn binary64_fraction(bits: u64) -> int {
    bits as int % 0x10_0000_0000_0000
}

/// The pattern is neither an infinity nor a NaN.
pub open spec fn binary64_is_finite(bits: u64) -> bool {
    binary64_exponent(bits) != 0x7ff
}

/// The pattern is a NaN.
pub open spec fn binary64_is_nan(bits: u64) -> bool {
    binary64_exponent(bits) == 0x7ff && binary64_fraction(bits) != 0
}

/// The significand of a finite pattern as an integer: the fraction, with
/// the hidden bit in front of it unless the pattern is subnormal.
pub open spec fn binary64_significand(bits: u64) -> int {
    if binary64_exponent(bits) == 0 {
        binary64_fraction(bits)
    } else {
        0x10_0000_0000_0000 + binary64_fraction(bits)
    }
}

/// The power of two that scales the integer significand: the magnitude of a
/// finite pattern is `binary64_significand * 2^binary64_scale`.
pub open spec fn binary64_scale(bits: u64) -> int {
    if binary64_exponent(bits) == 0 {
        -1074
    } else {
        binary64_exponent(bits) - 1075
    }
}

/// How many low bits of `p` a binary64 significand cannot hold: the number
/// of halvings that bring `p` below `2^53`.
pub open spec fn excess_bits(p: nat) -> nat
    decreases p,
{
    if p < 0x20_0000_0000_0000 {
        0
    } else {
        1 + excess_bits(p / 2)
    }
}

/// A number below `2^(53 + k)` has at most `k` bits too many.
pub proof fn lemma_excess_bits_bound(p: nat, k: nat)
    requires
        p < 0x20_0000_0000_0000 * pow2(k),
    ensures
        excess_bits(p) <= k,
    decreases k,
{
    lemma2_to64();
    if p >= 0x20_0000_0000_0000 {
        if k == 0 {
            assert(false);
        } else {
            lemma_pow2_unfold(k);
            assert(0x20_0000_0000_0000 * (2 * pow2((k - 1) as nat)) == 2 * (0x20_0000_0000_0000
                * pow2((k - 1) as nat))) by (nonlinear_arith);
            lemma_excess_bits_bound(p / 2, (k - 1) as nat);
        }
    }
}

/// The significand of the product of a finite pattern and `factor`, as a
/// binary64 multiplication rounds it: to 53 bits, halves to even.
pub open spec fn binary64_product_significand(bits: u64, factor: nat) -> int {
    let exact = binary64_significand(bits) * factor;
    div_round_even(exact, pow2(excess_bits(exact as nat)) as int)
}

/// The power of two that scales `binary64_product_significand`.
pub open spec fn binary64_product_scale(bits: u64, factor: nat) -> int {
    binary64_scale(bits) + excess_bits((binary64_significand(bits) * factor) as nat)
}

/// The magnitude of a finite pattern times `factor`, formed as a binary64
/// multiplication forms it and then rounded to the nearest integer, halves
/// upward: what `(x * factor).round()` is for a non-negative `x`.
///
/// Two things binary64 does at its limits are left out, and neither moves
/// the integer. A product too small for a normal number keeps fewer bits
/// there, but it is far below one half and rounds to zero here as well. A
/// product too large becomes infinity there and is some huge integer here;
/// both are beyond any range a caller saturates to.
pub open spec fn binary64_magnitude_times(bits: u64, factor: nat) -> int {
    let significand = binary64_product_significand(bits, factor);
    let scale = binary64_product_scale(bits, factor);
    if scale >= 0 {
        significand * pow2(scale as nat)
    } else {
        div_round(significand, pow2((-scale) as nat) as int)
    }
}

/// `v` limited to the range of sixty-four bits.
pub open spec fn saturate_u64(v: int) -> u64 {
    if v < 0 {
        0
    } else if v > u64::MAX {
        u64::MAX
    } else {
        v as u64
    }
}

/// Rounds a product that is below `2^61` to 53 significant bits, halves to
/// even. Returns the rounded significand and the number of bits dropped.
fn round_to_precision(exact: u64) -> (rounded: (u64, u64))
    requires
        exact < 0x2000_0000_0000_0000,
    ensures
        rounded.1 == excess_bits(exact as nat),
        rounded.1 <= 8,
        rounded.0 == div_round_even(exact as int, pow2(rounded.1 as nat) as int),
        rounded.0 <= 0x20_0000_0000_0000,
{
    let mut top: u64 = exact;
    let mut extra: u64 = 0;
    proof {
        lemma2_to64();
        lemma2_to64_rest();
    }
    while top >= BINARY64_HIDDEN_BIT * 2
        invariant
            extra <= 8,
            top == exact as int / pow2(extra as nat) as int,
            top < pow2((61 - extra) as nat),
            excess_bits(exact as nat) == extra + excess_bits(top as nat),
        decreases top,
    {
        proof {
            lemma2_to64_rest();
            if extra == 8 {
                assert(pow2(53) == 0x20_0000_0000_0000);
            }
            lemma_pow2_unfold((61 - extra) as nat);
            lemma_pow2_unfold((extra + 1) as nat);
            lemma_pow2_pos(extra as nat);
            vstd::arithmetic::div_mod::lemma_div_denominator(
                exact as int,
                pow2(extra as nat) as int,
                2,
            );
            assert(pow2(extra as nat) * 2 == 2 * pow2(extra as nat));
        }
        top = top / 2;
        extra = extra + 1;
    }
    proof {
        lemma_pow2_pos(extra as nat);
        if extra < 8 {
            lemma_pow2_strictly_increases(extra as nat, 8);
        }
        lemma2_to64();
        vstd::bits::lemma_u64_shl_is_mul(1, extra);
    }
    let unit: u64 = 1u64 << extra;
    assert(unit == pow2(extra as nat));
    let rest: u64 = exact % unit;
    let tie: bool = 2 * rest == unit && top % 2 == 1;
    if 2 * rest > unit || tie {
        (top + 1, extra)
    } else {
        (top, extra)
    }
}

/// Multiplies the magnitude of a binary64 number by a small whole factor,
/// as a binary64 multiplication does, and rounds the product to the nearest
/// integer, halves upward.
///
/// Returns `None` for infinities and NaNs and for nothing else. A product
/// beyond sixty-four bits comes out as `u64::MAX`. The sign is left to the
/// caller.
pub fn round_magnitude_times(bits: u64, factor: u8) -> (rounded: Option<u64>)
    ensures
        rounded is Some <==> binary64_is_finite(bits),
        rounded matches Some(v) ==> v == saturate_u64(
            binary64_magnitude_times(bits, factor as nat),
        ),
{
    let exponent: u64 = (bits / BINARY64_HIDDEN_BIT) % 0x800;
    let fraction: u64 = bits % BINARY64_HIDDEN_BIT;
    if exponent == BINARY64_EXPONENT_SPECIAL {
        return None;
    }
    let significand: u64 = if exponent == 0 {
        fraction
    } else {
        BINARY64_HIDDEN_BIT + fraction
    };
    let scaled_by: u64 = if exponent == 0 {
        1
    } else {
        exponent
    };
    assert(significand * factor <= 0x20_0000_0000_0000 * 0xff) by (nonlinear_arith)
        requires
            significand < 0x20_0000_0000_0000,
            factor <= 0xff,
    ;
    let exact: u64 = significand * factor as u64;
    assert(exact == binary64_significand(bits) * (factor as nat));
    let (product, extra) = round_to_precision(exact);
    assert(product == binary64_product_significand(bits, factor as nat));
    assert(scaled_by + extra - 1075 == binary64_product_scale(bits, factor as nat));
    if scaled_by + extra >= 1075 {
        let up: u64 = scaled_by + extra - 1075;
        if product == 0 {
            assert(product * pow2(up as nat) == 0) by (nonlinear_arith)
                requires
                    product == 0,
            ;
            return Some(0);
        }
        if up >= 64 {
            proof {
                lemma2_to64_rest();
                if up > 64 {
                    lemma_pow2_strictly_increases(64, up as nat);
                }
                assert(product * pow2(up as nat) > u64::MAX) by (nonlinear_arith)
                    requires
                        product >= 1,
                        pow2(up as nat) >= 0x1_0000_0000_0000_0000,
                ;
            }
            return Some(u64::MAX);
        }
        proof {
            vstd::bits::lemma_u64_mul_pow2_le_max_iff_max_shr(product, up, u64::MAX);
        }
        if product > (u64::MAX >> up) {
            return Some(u64::MAX);
        }
        proof {
            vstd::bits::lemma_u64_shl_is_mul(product, up);
        }
        Some(product << up)
    } else {
        let down: u64 = 1075 - scaled_by - extra;
        if down >= 63 {
            proof {
                let unit = pow2(down as nat) as int;
                lemma2_to64_rest();
                if down > 63 {
                    lemma_pow2_strictly_increases(63, down as nat);
                }
                vstd::arithmetic::div_mod::lemma_basic_div(product + unit / 2, unit);
            }
            return Some(0);
        }
        proof {
            lemma2_to64_rest();
            if down < 62 {
                lemma_pow2_strictly_increases(down as nat, 62);
            }
            lemma_pow2_pos(down as nat);
            vstd::bits::lemma_u64_shl_is_mul(1, down);
        }
        let unit: u64 = 1u64 << down;
        assert(unit == pow2(down as nat));
        Some((product + unit / 2) / unit)
    }
}

} // verus!

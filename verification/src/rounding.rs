//! Rounding to the nearest whole number, and saturation.

use vstd::prelude::*;

verus! {

/// `n / d` rounded to the nearest integer, halves upward.
pub open spec fn div_round(n: int, d: int) -> int {
    (n + d / 2) / d
}

/// `n / d` rounded to the nearest integer, halves to the even neighbour.
pub open spec fn div_round_even(n: int, d: int) -> int {
    let q = n / d;
    let r = n % d;
    if 2 * r > d || (2 * r == d && q % 2 == 1) {
        q + 1
    } else {
        q
    }
}

/// `v` limited to the range of a byte.
pub open spec fn saturate_u8(v: int) -> u8 {
    if v < 0 {
        0
    } else if v > 0xff {
        0xff
    } else {
        v as u8
    }
}

/// `v` limited to the range of sixteen bits.
pub open spec fn saturate_u16(v: int) -> u16 {
    if v < 0 {
        0
    } else if v > 0xffff {
        0xffff
    } else {
        v as u16
    }
}

/// `div_round(n, d)` is the integer nearest to the exact quotient `n / d`:
/// it lies within one half of it, and a quotient that ends in one half goes
/// up.
pub proof fn lemma_div_round_is_nearest(n: int, d: int)
    requires
        0 <= n,
        0 < d,
    ensures
        0 <= div_round(n, d),
        (2 * div_round(n, d) - 1) * d <= 2 * n < (2 * div_round(n, d) + 1) * d,
{
    let q = div_round(n, d);
    let half = d / 2;
    vstd::arithmetic::div_mod::lemma_fundamental_div_mod(n + half, d);
    vstd::arithmetic::div_mod::lemma_mod_bound(n + half, d);
    vstd::arithmetic::div_mod::lemma_div_pos_is_pos(n + half, d);
    assert(d * q == q * d) by (nonlinear_arith);
    assert((2 * q - 1) * d == 2 * (q * d) - d) by (nonlinear_arith);
    assert((2 * q + 1) * d == 2 * (q * d) + d) by (nonlinear_arith);
}

/// Only one integer lies that near: whatever is within one half of `n / d`,
/// halves upward, is `div_round(n, d)`.
pub proof fn lemma_div_round_unique(n: int, d: int, q: int)
    requires
        0 <= n,
        0 < d,
        (2 * q - 1) * d <= 2 * n < (2 * q + 1) * d,
    ensures
        q == div_round(n, d),
{
    let r = div_round(n, d);
    lemma_div_round_is_nearest(n, d);
    if q < r {
        assert((2 * q + 1) * d <= (2 * r - 1) * d) by (nonlinear_arith)
            requires
                q + 1 <= r,
                0 < d,
        ;
    } else if q > r {
        assert((2 * r + 1) * d <= (2 * q - 1) * d) by (nonlinear_arith)
            requires
                r + 1 <= q,
                0 < d,
        ;
    }
}

/// `div_round_even(n, d)` lies within one half of the exact quotient
/// `n / d`, and where the quotient ends in one half it is the even
/// neighbour.
pub proof fn lemma_div_round_even_is_nearest(n: int, d: int)
    requires
        0 <= n,
        0 < d,
    ensures
        0 <= div_round_even(n, d),
        (2 * div_round_even(n, d) - 1) * d <= 2 * n <= (2 * div_round_even(n, d) + 1) * d,
        2 * n == (2 * div_round_even(n, d) - 1) * d || 2 * n == (2 * div_round_even(n, d) + 1) * d
            ==> div_round_even(n, d) % 2 == 0,
{
    let q = n / d;
    let r = n % d;
    let e = div_round_even(n, d);
    vstd::arithmetic::div_mod::lemma_fundamental_div_mod(n, d);
    vstd::arithmetic::div_mod::lemma_mod_bound(n, d);
    vstd::arithmetic::div_mod::lemma_div_pos_is_pos(n, d);
    assert(n == d * q + r);
    assert(d * q == q * d) by (nonlinear_arith);
    assert((2 * q - 1) * d == 2 * (q * d) - d) by (nonlinear_arith);
    assert((2 * q + 1) * d == 2 * (q * d) + d) by (nonlinear_arith);
    assert((2 * q + 3) * d == 2 * (q * d) + 3 * d) by (nonlinear_arith);
}

} // verus!

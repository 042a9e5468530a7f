//! Whole-number arithmetic for quantities that are defined over the reals:
//! the whole part of a square root, and a quotient rounded to the nearest
//! whole number.

use vstd::prelude::*;

verus! {

/// Whether `root` is the whole part of the square root of `x`.
pub open spec fn is_floor_sqrt(root: nat, x: nat) -> bool {
    root * root <= x < (root + 1) * (root + 1)
}

/// The whole number nearest to `num / den`; of two that are equally near,
/// the even one.
pub open spec fn rounded_div(num: nat, den: nat) -> nat
    recommends
        den > 0,
{
    let q = num / den;
    let r = num % den;
    if 2 * r > den || (2 * r == den && q % 2 == 1) {
        q + 1
    } else {
        q
    }
}

/// The distance between two whole numbers.
pub open spec fn distance(a: nat, b: nat) -> nat {
    if a <= b {
        (b - a) as nat
    } else {
        (a - b) as nat
    }
}

/// No whole number is nearer to `num / den` than `rounded_div(num, den)`,
/// and one that is as near and is not it is odd.
pub proof fn lemma_rounded_div_nearest(num: nat, den: nat, other: nat)
    requires
        den > 0,
    ensures
        distance(rounded_div(num, den) * den, num) <= distance(other * den, num),
        other != rounded_div(num, den) && distance(rounded_div(num, den) * den, num)
            == distance(other * den, num) ==> rounded_div(num, den) % 2 == 0,
{
    let q = num / den;
    let r = num % den;
    let k = rounded_div(num, den);
    assert(num == q * den + r && 0 <= r < den) by (nonlinear_arith)
        requires
            den > 0,
            q == num / den,
            r == num % den,
    ;
    assert((q + 1) * den == q * den + den) by (nonlinear_arith);
    if other <= q {
        assert(other * den <= q * den) by (nonlinear_arith)
            requires
                other <= q,
        ;
        if other < q {
            assert(other * den + den <= q * den) by (nonlinear_arith)
                requires
                    other + 1 <= q,
            ;
        }
    } else {
        assert(other * den >= q * den + den) by (nonlinear_arith)
            requires
                other >= q + 1,
        ;
        if other > q + 1 {
            assert(other * den >= q * den + den + den) by (nonlinear_arith)
                requires
                    other >= q + 2,
            ;
        }
    }
    if k == q {
        assert(distance(k * den, num) == r);
    } else {
        assert(k == q + 1);
        assert(distance(k * den, num) == den - r);
        if 2 * r == den {
            assert(q % 2 == 1);
            assert((q + 1) % 2 == 0);
        }
    }
}

/// The whole part of the square root of `x`.
pub fn floor_sqrt(x: u128) -> (root: u64)
    ensures
        is_floor_sqrt(root as nat, x as nat),
{
    let mut low: u128 = 0;
    let mut high: u128 = 0x1_0000_0000_0000_0000;
    assert(high * high > x) by (nonlinear_arith)
        requires
            high == 0x1_0000_0000_0000_0000u128,
            x <= u128::MAX,
    ;
    while high - low > 1
        invariant
            low < high <= 0x1_0000_0000_0000_0000,
            low * low <= x < high * high,
        decreases high - low,
    {
        let mid: u128 = low + (high - low) / 2;
        assert(mid * mid <= u128::MAX) by (nonlinear_arith)
            requires
                mid < 0x1_0000_0000_0000_0000u128,
        ;
        if mid * mid <= x {
            low = mid;
        } else {
            high = mid;
        }
    }
    low as u64
}

/// `num / den`, rounded to the nearest whole number, to the even one of two
/// that are equally near.
pub fn round_div(num: u128, den: u128) -> (quotient: u128)
    requires
        den > 0,
    ensures
        quotient == rounded_div(num as nat, den as nat),
{
    let q: u128 = num / den;
    let r: u128 = num % den;
    if r > den - r || (r == den - r && q % 2 == 1) {
        assert(q < u128::MAX) by (nonlinear_arith)
            requires
                q == num / den,
                r == num % den,
                r >= den - r,
                den > 0,
                num <= u128::MAX,
        ;
        q + 1
    } else {
        q
    }
}

} // verus!

//! Fixed-point scalars. A scalar is an `i64` counting thousandths of a unit,
//! so every quantity of the engine is exact and finite by construction.

use vstd::prelude::*;

verus! {

/// Steps per unit.
pub const SCALE: i64 = 1000;

/// Largest magnitude a stored coordinate may take, in steps.
pub const LIMIT: i64 = 100_000_000;

/// Whether `a` is a coordinate in range.
pub open spec fn in_range(a: int) -> bool {
    -(LIMIT as int) <= a <= LIMIT as int
}

/// `a` brought into the range from `-LIMIT` to `LIMIT`.
pub open spec fn sat(a: int) -> int {
    if a > LIMIT as int {
        LIMIT as int
    } else if a < -(LIMIT as int) {
        -(LIMIT as int)
    } else {
        a
    }
}

/// The quotient of `a` by a positive `b`, rounded toward zero.
pub open spec fn tdiv(a: int, b: int) -> int {
    if a >= 0 {
        a / b
    } else {
        -((-a) / b)
    }
}

/// Absolute value.
pub open spec fn abs(a: int) -> int {
    if a < 0 {
        -a
    } else {
        a
    }
}

/// The quotient of `a` by a positive `b`, rounded away from zero.
pub open spec fn adiv(a: int, b: int) -> int {
    if a >= 0 {
        (a + b - 1) / b
    } else {
        -((-a + b - 1) / b)
    }
}

/// Whether `r` is the integer square root of `n`.
pub open spec fn is_sqrt(n: int, r: int) -> bool {
    0 <= r && r * r <= n && n < (r + 1) * (r + 1)
}

/// The integer square root of a non-negative `n`: the one `r` with
/// `r * r <= n < (r + 1) * (r + 1)`.
pub open spec fn sqrt_floor(n: int) -> int {
    choose|r: int| is_sqrt(n, r)
}

/// Two integer square roots of one number are equal.
pub proof fn lemma_sqrt_unique(n: int, a: int, b: int)
    requires
        is_sqrt(n, a),
        is_sqrt(n, b),
    ensures
        a == b,
{
    if a < b {
        assert((a + 1) * (a + 1) <= b * b) by (nonlinear_arith)
            requires
                0 <= a,
                a + 1 <= b,
        ;
    } else if b < a {
        assert((b + 1) * (b + 1) <= a * a) by (nonlinear_arith)
            requires
                0 <= b,
                b + 1 <= a,
        ;
    }
}

/// Whatever satisfies the defining inequalities is the square root.
pub proof fn lemma_sqrt_is(n: int, r: int)
    requires
        is_sqrt(n, r),
    ensures
        sqrt_floor(n) == r,
{
    lemma_sqrt_unique(n, r, sqrt_floor(n));
}

/// Clamps a value to the coordinate range.
pub fn clamp(a: i64) -> (r: i64)
    ensures
        r as int == sat(a as int),
{
    if a > LIMIT {
        LIMIT
    } else if a < -LIMIT {
        -LIMIT
    } else {
        a
    }
}

/// Divides by a positive number, rounding toward zero.
pub fn div_trunc(a: i64, b: i64) -> (r: i64)
    requires
        b > 0,
        a > i64::MIN,
    ensures
        r as int == tdiv(a as int, b as int),
{
    if a >= 0 {
        let q: u64 = (a as u64) / (b as u64);
        q as i64
    } else {
        let q: u64 = ((-a) as u64) / (b as u64);
        -(q as i64)
    }
}

/// Divides by a positive number, rounding away from zero.
pub fn div_away(a: i64, b: i64) -> (r: i64)
    requires
        0 < b <= 0x2000_0000_0000_0000,
        -0x2000_0000_0000_0000 <= a <= 0x2000_0000_0000_0000,
    ensures
        r as int == adiv(a as int, b as int),
{
    proof {
        lemma_adiv_bounds(a as int, b as int);
    }
    if a >= 0 {
        let q: u64 = ((a + b - 1) as u64) / (b as u64);
        q as i64
    } else {
        let q: u64 = ((-a + b - 1) as u64) / (b as u64);
        -(q as i64)
    }
}

/// A quotient rounded away from zero lies less than one divisor beyond the
/// dividend: it has the dividend's sign, is zero only for zero, and is no
/// longer than the dividend.
pub proof fn lemma_adiv_bounds(a: int, b: int)
    requires
        b > 0,
    ensures
        a >= 0 ==> a <= adiv(a, b) * b < a + b,
        a <= 0 ==> a - b < adiv(a, b) * b <= a,
        a > 0 ==> adiv(a, b) > 0,
        a < 0 ==> adiv(a, b) < 0,
        a == 0 ==> adiv(a, b) == 0,
        abs(adiv(a, b)) <= abs(a),
{
    let n = abs(a) + b - 1;
    let q = n / b;
    vstd::arithmetic::div_mod::lemma_fundamental_div_mod(n, b);
    vstd::arithmetic::div_mod::lemma_mod_bound(n, b);
    assert(b * q == q * b) by (nonlinear_arith);
    assert(abs(a) <= q * b < abs(a) + b);
    assert(q >= 0 && (abs(a) > 0 ==> q > 0) && (abs(a) == 0 ==> q == 0) && q <= abs(a))
        by (nonlinear_arith)
        requires
            abs(a) <= q * b < abs(a) + b,
            b > 0,
            abs(a) >= 0,
    ;
    if a < 0 {
        assert((-q) * b == -(q * b)) by (nonlinear_arith);
    }
}

/// Rounded away from zero, the quotient of the larger of two non-negative
/// dividends is no smaller, and larger where the dividends lie a divisor
/// apart.
pub proof fn lemma_adiv_grows(a1: int, a2: int, b: int)
    requires
        b > 0,
        0 <= a1 <= a2,
    ensures
        adiv(a1, b) <= adiv(a2, b),
        a2 >= a1 + b ==> adiv(a1, b) < adiv(a2, b),
{
    lemma_adiv_bounds(a1, b);
    lemma_adiv_bounds(a2, b);
    let q1 = adiv(a1, b);
    let q2 = adiv(a2, b);
    vstd::arithmetic::div_mod::lemma_div_is_ordered(a1 + b - 1, a2 + b - 1, b);
    if a2 >= a1 + b {
        assert(q1 < q2) by (nonlinear_arith)
            requires
                q1 * b < q2 * b,
                b > 0,
        ;
    }
}

/// The magnitude of a quotient rounded toward zero never exceeds that of
/// the dividend, and its sign is the dividend's or it is zero.
pub proof fn lemma_tdiv_bounds(a: int, b: int)
    requires
        b > 0,
    ensures
        a >= 0 ==> 0 <= tdiv(a, b) <= a,
        a <= 0 ==> a <= tdiv(a, b) <= 0,
{
    if a >= 0 {
        vstd::arithmetic::div_mod::lemma_div_pos_is_pos(a, b);
        vstd::arithmetic::div_mod::lemma_div_is_ordered_by_denominator(a, 1, b);
    } else {
        vstd::arithmetic::div_mod::lemma_div_pos_is_pos(-a, b);
        vstd::arithmetic::div_mod::lemma_div_is_ordered_by_denominator(-a, 1, b);
    }
}

/// A product of two bounded numbers is bounded by the product of the bounds.
pub proof fn lemma_mul_bound(a: int, b: int, ka: int, kb: int)
    requires
        -ka <= a <= ka,
        -kb <= b <= kb,
    ensures
        -(ka * kb) <= a * b <= ka * kb,
{
    assert(-(ka * kb) <= a * b <= ka * kb) by (nonlinear_arith)
        requires
            -ka <= a <= ka,
            -kb <= b <= kb,
    ;
}

/// Integer square root of a number below `2^62`, by bisection.
pub fn isqrt(n: u64) -> (r: u64)
    requires
        n < 0x4000_0000_0000_0000,
    ensures
        r as int == sqrt_floor(n as int),
        is_sqrt(n as int, r as int),
{
    let mut lo: u64 = 0;
    let mut hi: u64 = 0x8000_0000;
    proof {
        assert(0x8000_0000int * 0x8000_0000int == 0x4000_0000_0000_0000int) by (nonlinear_arith);
    }
    while hi - lo > 1
        invariant
            lo < hi <= 0x8000_0000,
            lo * lo <= n,
            n < hi * hi,
        decreases hi - lo,
    {
        let mid: u64 = lo + (hi - lo) / 2;
        proof {
            assert(mid * mid < 0x4000_0000_0000_0000) by (nonlinear_arith)
                requires
                    0 <= mid < 0x8000_0000,
            ;
        }
        if mid * mid <= n {
            lo = mid;
        } else {
            hi = mid;
        }
    }
    proof {
        lemma_sqrt_is(n as int, lo as int);
    }
    lo
}

} // verus!

verus! {

/// Every non-negative number has an integer square root, and `sqrt_floor`
/// is it.
pub proof fn lemma_sqrt_exists(n: nat)
    ensures
        is_sqrt(n as int, sqrt_floor(n as int)),
    decreases n,
{
    if n == 0 {
        assert(is_sqrt(0, 0));
    } else {
        lemma_sqrt_exists((n - 1) as nat);
        let r = sqrt_floor(n - 1);
        if (r + 1) * (r + 1) <= n {
            assert(n < (r + 2) * (r + 2)) by (nonlinear_arith)
                requires
                    n <= (r + 1) * (r + 1),
                    r >= 0,
            ;
            assert(is_sqrt(n as int, r + 1));
        } else {
            assert(is_sqrt(n as int, r));
        }
    }
}

} // verus!

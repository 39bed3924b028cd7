//! Two-dimensional vectors of fixed-point scalars.

use vstd::prelude::*;
use crate::fixed::{clamp, div_trunc, in_range, is_sqrt, isqrt, sat, sqrt_floor, tdiv, LIMIT, SCALE};

verus! {

/// A point or a displacement in the plane, in steps.
#[derive(Clone, Copy, Debug, PartialEq, Eq, Structural)]
pub struct Vec2 {
    pub x: i64,
    pub y: i64,
}

/// The vector with the given components, each of which fits an `i64`.
pub open spec fn vec2(x: int, y: int) -> Vec2 {
    Vec2 { x: x as i64, y: y as i64 }
}

/// Squared length of `(x, y)`.
pub open spec fn norm_sq(x: int, y: int) -> int {
    x * x + y * y
}

/// If the integer square root of `x * x + y * y` is `r`, neither component
/// exceeds `r` in magnitude, and `r` is zero only for the zero vector.
pub proof fn lemma_component_le_length(x: int, y: int, r: int)
    requires
        is_sqrt(norm_sq(x, y), r),
    ensures
        -r <= x <= r,
        -r <= y <= r,
        r == 0 <==> (x == 0 && y == 0),
{
    assert(x * x >= 0 && y * y >= 0) by (nonlinear_arith);
    if x > r {
        assert(x * x >= (r + 1) * (r + 1)) by (nonlinear_arith)
            requires
                x >= r + 1,
                r >= 0,
        ;
    }
    if x < -r {
        assert(x * x >= (r + 1) * (r + 1)) by (nonlinear_arith)
            requires
                -x >= r + 1,
                r >= 0,
        ;
    }
    if y > r {
        assert(y * y >= (r + 1) * (r + 1)) by (nonlinear_arith)
            requires
                y >= r + 1,
                r >= 0,
        ;
    }
    if y < -r {
        assert(y * y >= (r + 1) * (r + 1)) by (nonlinear_arith)
            requires
                -y >= r + 1,
                r >= 0,
        ;
    }
    if r == 0 {
        assert((r + 1) * (r + 1) == 1) by (nonlinear_arith)
            requires
                r == 0,
        ;
    }
    if x == 0 && y == 0 {
        assert(r * r > 0 || r == 0) by (nonlinear_arith)
            requires
                r >= 0,
        ;
    }
}

/// A quotient `a * s / r`, rounded toward zero, lies between `-s` and `s`
/// when `a` lies between `-r` and `r`, and has the sign of `a` or is zero.
pub proof fn lemma_unit_component(a: int, r: int, s: int)
    requires
        r > 0,
        s >= 0,
        -r <= a <= r,
    ensures
        -s <= tdiv(a * s, r) <= s,
        a >= 0 ==> tdiv(a * s, r) >= 0,
        a <= 0 ==> tdiv(a * s, r) <= 0,
{
    if a >= 0 {
        assert(0 <= a * s <= r * s) by (nonlinear_arith)
            requires
                0 <= a <= r,
                s >= 0,
        ;
        vstd::arithmetic::div_mod::lemma_div_is_ordered(a * s, r * s, r);
        vstd::arithmetic::div_mod::lemma_div_is_ordered(0, a * s, r);
        assert(r * s == s * r) by (nonlinear_arith);
        vstd::arithmetic::div_mod::lemma_div_by_multiple(s, r);
    } else {
        assert(0 <= (-a) * s <= r * s && -(a * s) == (-a) * s && a * s <= 0) by (nonlinear_arith)
            requires
                0 <= -a <= r,
                s >= 0,
        ;
        vstd::arithmetic::div_mod::lemma_div_is_ordered((-a) * s, r * s, r);
        vstd::arithmetic::div_mod::lemma_div_is_ordered(0, (-a) * s, r);
        assert(r * s == s * r) by (nonlinear_arith);
        vstd::arithmetic::div_mod::lemma_div_by_multiple(s, r);
    }
}

impl Vec2 {
    /// Both components are coordinates in range.
    pub open spec fn wf(self) -> bool {
        in_range(self.x as int) && in_range(self.y as int)
    }

    /// Component-wise sum, each component brought into range.
    pub open spec fn plus_spec(self, o: Vec2) -> Vec2 {
        vec2(sat(self.x + o.x), sat(self.y + o.y))
    }

    /// Component-wise difference, each component brought into range.
    pub open spec fn minus_spec(self, o: Vec2) -> Vec2 {
        vec2(sat(self.x - o.x), sat(self.y - o.y))
    }

    /// Component-wise fixed-point product, each component brought into range.
    pub open spec fn times_spec(self, o: Vec2) -> Vec2 {
        vec2(
            sat(tdiv(self.x * o.x, SCALE as int)),
            sat(tdiv(self.y * o.y, SCALE as int)),
        )
    }

    /// Euclidean length, rounded down to a whole step.
    pub open spec fn length_spec(self) -> int {
        sqrt_floor(norm_sq(self.x as int, self.y as int))
    }

    /// The vector of length one unit in the direction of `self`, each
    /// component rounded toward zero; the zero vector where `self` is zero.
    pub open spec fn unit_spec(self) -> Vec2 {
        if self.x == 0 && self.y == 0 {
            Vec2 { x: 0, y: 0 }
        } else {
            vec2(
                tdiv(self.x * SCALE, self.length_spec()),
                tdiv(self.y * SCALE, self.length_spec()),
            )
        }
    }

    /// The zero vector.
    pub fn zero() -> (r: Vec2)
        ensures
            r == (Vec2 { x: 0, y: 0 }),
    {
        Vec2 { x: 0, y: 0 }
    }

    /// A vector from whole steps, each component clamped into range.
    pub fn new(x: i64, y: i64) -> (r: Vec2)
        ensures
            r == vec2(sat(x as int), sat(y as int)),
            r.wf(),
    {
        Vec2 { x: clamp(x), y: clamp(y) }
    }

    /// Saturating sum.
    pub fn plus(self, o: Vec2) -> (r: Vec2)
        requires
            self.wf(),
            o.wf(),
        ensures
            r == self.plus_spec(o),
            r.wf(),
    {
        Vec2 { x: clamp(self.x + o.x), y: clamp(self.y + o.y) }
    }

    /// Saturating difference.
    pub fn minus(self, o: Vec2) -> (r: Vec2)
        requires
            self.wf(),
            o.wf(),
        ensures
            r == self.minus_spec(o),
            r.wf(),
    {
        Vec2 { x: clamp(self.x - o.x), y: clamp(self.y - o.y) }
    }

    /// Saturating component-wise product of two fixed-point vectors.
    pub fn times(self, o: Vec2) -> (r: Vec2)
        requires
            self.wf(),
            o.wf(),
        ensures
            r == self.times_spec(o),
            r.wf(),
    {
        proof {
            lemma_product_fits(self.x as int, o.x as int);
            lemma_product_fits(self.y as int, o.y as int);
        }
        Vec2 {
            x: clamp(div_trunc(self.x * o.x, SCALE)),
            y: clamp(div_trunc(self.y * o.y, SCALE)),
        }
    }

    /// Length in steps, rounded down.
    pub fn length(self) -> (r: i64)
        requires
            self.wf(),
        ensures
            r as int == self.length_spec(),
            is_sqrt(norm_sq(self.x as int, self.y as int), r as int),
            0 <= r <= 2 * LIMIT,
    {
        proof {
            lemma_product_fits(self.x as int, self.x as int);
            lemma_product_fits(self.y as int, self.y as int);
            assert(self.x * self.x >= 0 && self.y * self.y >= 0) by (nonlinear_arith);
        }
        let n: i64 = self.x * self.x + self.y * self.y;
        let r: u64 = isqrt(n as u64);
        proof {
            if r > 2 * LIMIT {
                assert(r * r > 20_000_000_000_000_000) by (nonlinear_arith)
                    requires
                        r > 200_000_000,
                ;
            }
        }
        r as i64
    }

    /// The unit vector in this direction, or zero for the zero vector.
    pub fn normalize_or_zero(self) -> (r: Vec2)
        requires
            self.wf(),
        ensures
            r == self.unit_spec(),
            r.wf(),
            -SCALE <= r.x <= SCALE,
            -SCALE <= r.y <= SCALE,
            self.x >= 0 ==> r.x >= 0,
            self.x <= 0 ==> r.x <= 0,
            self.y >= 0 ==> r.y >= 0,
            self.y <= 0 ==> r.y <= 0,
    {
        if self.x == 0 && self.y == 0 {
            return Vec2 { x: 0, y: 0 };
        }
        let len: i64 = self.length();
        proof {
            lemma_component_le_length(self.x as int, self.y as int, len as int);
            lemma_unit_component(self.x as int, len as int, SCALE as int);
            lemma_unit_component(self.y as int, len as int, SCALE as int);
        }
        Vec2 { x: div_trunc(self.x * SCALE, len), y: div_trunc(self.y * SCALE, len) }
    }
}

/// The product of two coordinates in range is at most `LIMIT * LIMIT` in
/// magnitude.
pub proof fn lemma_product_fits(a: int, b: int)
    requires
        in_range(a),
        in_range(b),
    ensures
        -10_000_000_000_000_000 <= a * b <= 10_000_000_000_000_000,
{
    assert(-10_000_000_000_000_000 <= a * b <= 10_000_000_000_000_000) by (nonlinear_arith)
        requires
            -100_000_000 <= a <= 100_000_000,
            -100_000_000 <= b <= 100_000_000,
    ;
}

} // verus!

//! Collision resolution: a player against a platform, and two players
//! against each other.
//!
//! A contact is resolved along one axis. Which one is decided from the
//! corner of the moving box that came first, and from the times at which
//! the two boxes met on each axis. The times are compared as fractions, by
//! cross-multiplication, so an axis without motion never divides by zero:
//! its time counts as infinite and is never the smaller one.

use vstd::prelude::*;
use crate::fixed::{
    abs, clamp, div_trunc, in_range, lemma_mul_bound, lemma_tdiv_bounds, sat, tdiv, LIMIT,
};
use crate::vec2::{vec2, Vec2};
use crate::body::{mass_ok, size_ok, Body, Platform, MAX_MASS};

verus! {

/// An axis-aligned box by its lower-left and upper-right corners.
#[derive(Clone, Copy, Debug, PartialEq, Eq, Structural)]
pub struct Aabb {
    pub min: Vec2,
    pub max: Vec2,
}

/// Where the moving box stood, before it moved, as seen from the other.
#[derive(Clone, Copy, Debug, PartialEq, Eq, Structural)]
pub enum Quadrant {
    UpperLeft,
    UpperRight,
    LowerLeft,
    LowerRight,
}

/// The axis along which a contact is resolved.
#[derive(Clone, Copy, Debug, PartialEq, Eq, Structural)]
pub enum Axis {
    X,
    Y,
}

/// `a` brought into the interval from `lo` to `hi`.
pub open spec fn clamp_between(a: int, lo: int, hi: int) -> int {
    if a < lo {
        lo
    } else if a > hi {
        hi
    } else {
        a
    }
}

/// The box of the given extent around `(cx, cy)`.
pub open spec fn aabb_spec(cx: int, cy: int, size: Vec2) -> Aabb {
    Aabb {
        min: vec2(cx - size.x / 2, cy - size.y / 2),
        max: vec2(cx + size.x / 2, cy + size.y / 2),
    }
}

/// Whether two boxes share a point; touching edges count.
pub open spec fn intersects_spec(a: Aabb, b: Aabb) -> bool {
    a.min.x <= b.max.x && a.max.x >= b.min.x && a.min.y <= b.max.y && a.max.y >= b.min.y
}

/// The point of the box `a` nearest to `p`.
pub open spec fn closest_point_spec(a: Aabb, p: Vec2) -> Vec2 {
    vec2(
        clamp_between(p.x as int, a.min.x as int, a.max.x as int),
        clamp_between(p.y as int, a.min.y as int, a.max.y as int),
    )
}

/// The quadrant of an offset: left where `x <= 0`, upper where `y >= 0`.
pub open spec fn quadrant_spec(x: int, y: int) -> Quadrant {
    if x <= 0 {
        if y >= 0 {
            Quadrant::UpperLeft
        } else {
            Quadrant::LowerLeft
        }
    } else {
        if y >= 0 {
            Quadrant::UpperRight
        } else {
            Quadrant::LowerRight
        }
    }
}

/// Whether the quadrant is one of the two upper ones.
pub open spec fn is_upper(q: Quadrant) -> bool {
    q == Quadrant::UpperLeft || q == Quadrant::UpperRight
}

/// The corner of the moving box `a` that faces the other box `b`.
pub open spec fn moving_corner(q: Quadrant, a: Aabb) -> Vec2 {
    match q {
        Quadrant::LowerRight => Vec2 { x: a.min.x, y: a.max.y },
        Quadrant::LowerLeft => a.max,
        Quadrant::UpperRight => a.min,
        Quadrant::UpperLeft => Vec2 { x: a.max.x, y: a.min.y },
    }
}

/// The corner of the other box `b` that faces the moving box.
pub open spec fn facing_corner(q: Quadrant, b: Aabb) -> Vec2 {
    match q {
        Quadrant::LowerRight => Vec2 { x: b.max.x, y: b.min.y },
        Quadrant::LowerLeft => b.min,
        Quadrant::UpperRight => b.max,
        Quadrant::UpperLeft => Vec2 { x: b.min.x, y: b.max.y },
    }
}

/// The contact is resolved along X exactly when the time of collision on
/// X, `-dx / vx`, is positive and smaller than the magnitude of the time on
/// Y, `-dy / vy`. With both sides multiplied out: `dx` and `vx` have
/// opposite signs, and `|dx| * |vy| < |dy| * |vx|`. A zero `vx` fails the
/// first test; a zero `vy` passes the second unless `dy` is zero too.
pub open spec fn axis_spec(dx: int, dy: int, vx: int, vy: int) -> Axis {
    if dx * vx < 0 && abs(dx) * abs(vy) < abs(dy) * abs(vx) {
        Axis::X
    } else {
        Axis::Y
    }
}

/// The velocity of one body after an elastic collision of two, on one axis:
/// `2 * (m1 * v1 + m2 * v2) / (m1 + m2) - own`, brought into range.
pub open spec fn elastic_spec(m1: int, v1: int, m2: int, v2: int, own: int) -> int {
    sat(tdiv(2 * (m1 * v1 + m2 * v2), m1 + m2) - own)
}

/// Between bodies of equal mass an elastic collision exchanges the
/// velocities exactly, so their momentum is the same before and after.
pub proof fn lemma_equal_mass_exchange(m: int, v1: int, v2: int)
    requires
        m > 0,
        in_range(v1),
        in_range(v2),
    ensures
        elastic_spec(m, v1, m, v2, v1) == v2,
        elastic_spec(m, v1, m, v2, v2) == v1,
        m * elastic_spec(m, v1, m, v2, v1) + m * elastic_spec(m, v1, m, v2, v2) == m * v1 + m
            * v2,
{
    let s = v1 + v2;
    assert(2 * (m * v1 + m * v2) == s * (m + m)) by (nonlinear_arith)
        requires
            s == v1 + v2,
    ;
    assert(-(2 * (m * v1 + m * v2)) == (-s) * (m + m)) by (nonlinear_arith)
        requires
            s == v1 + v2,
    ;
    if s >= 0 {
        assert(s * (m + m) >= 0) by (nonlinear_arith)
            requires
                s >= 0,
                m > 0,
        ;
        vstd::arithmetic::div_mod::lemma_div_by_multiple(s, m + m);
    } else {
        assert(s * (m + m) < 0) by (nonlinear_arith)
            requires
                s < 0,
                m > 0,
        ;
        vstd::arithmetic::div_mod::lemma_div_by_multiple(-s, m + m);
    }
    assert(tdiv(2 * (m * v1 + m * v2), m + m) == s);
    assert(m * v2 + m * v1 == m * v1 + m * v2) by (nonlinear_arith);
}

/// An elastic collision conserves momentum up to rounding: where neither
/// new velocity had to be brought into range, the momentum after differs
/// from the momentum before by less than `m1 + m2`.
pub proof fn lemma_momentum_conserved(m1: int, v1: int, m2: int, v2: int)
    requires
        m1 > 0,
        m2 > 0,
        in_range(tdiv(2 * (m1 * v1 + m2 * v2), m1 + m2) - v1),
        in_range(tdiv(2 * (m1 * v1 + m2 * v2), m1 + m2) - v2),
    ensures
        abs(
            m1 * elastic_spec(m1, v1, m2, v2, v1) + m2 * elastic_spec(m1, v1, m2, v2, v2) - (m1
                * v1 + m2 * v2),
        ) < m1 + m2,
{
    let p = m1 * v1 + m2 * v2;
    let m = m1 + m2;
    let q = tdiv(2 * p, m);
    if 2 * p >= 0 {
        vstd::arithmetic::div_mod::lemma_fundamental_div_mod(2 * p, m);
        vstd::arithmetic::div_mod::lemma_mod_bound(2 * p, m);
    } else {
        vstd::arithmetic::div_mod::lemma_fundamental_div_mod(-(2 * p), m);
        vstd::arithmetic::div_mod::lemma_mod_bound(-(2 * p), m);
        assert(m * (-((-(2 * p)) / m)) == -(m * ((-(2 * p)) / m))) by (nonlinear_arith);
    }
    assert(abs(m * q - 2 * p) < m);
    assert(m1 * (q - v1) + m2 * (q - v2) - p == m * q - 2 * p) by (nonlinear_arith)
        requires
            p == m1 * v1 + m2 * v2,
            m == m1 + m2,
    ;
}

/// Two overlapping players of equal mass leave their contact with each
/// other's velocity.
pub proof fn lemma_equal_players_exchange(a: Body, b: Body)
    requires
        a.wf(),
        b.wf(),
        a.mass == b.mass,
        intersects_spec(
            aabb_spec(a.position.x as int, a.position.y as int, a.size),
            aabb_spec(b.position.x as int, b.position.y as int, b.size),
        ),
    ensures
        player_contact_spec(a, b).0.velocity == b.velocity,
        player_contact_spec(a, b).1.velocity == a.velocity,
{
    lemma_equal_mass_exchange(a.mass as int, a.velocity.x as int, b.velocity.x as int);
    lemma_equal_mass_exchange(a.mass as int, a.velocity.y as int, b.velocity.y as int);
}

/// Coordinates within `k` times the coordinate range.
pub open spec fn within(v: Vec2, k: int) -> bool {
    -k * LIMIT <= v.x <= k * LIMIT && -k * LIMIT <= v.y <= k * LIMIT
}

/// A player after meeting one platform, and whether it came to rest on the
/// platform's top.
pub open spec fn platform_contact_spec(b: Body, p: Platform) -> (Body, bool) {
    let bb1 = aabb_spec(b.position.x as int, b.position.y as int, b.size);
    let before = aabb_spec(b.position.x - b.velocity.x, b.position.y - b.velocity.y, b.size);
    let bb2 = aabb_spec(p.position.x as int, p.position.y as int, p.size);
    let near = closest_point_spec(before, p.position);
    let q = quadrant_spec(near.x - p.position.x, near.y - p.position.y);
    let dx = facing_corner(q, bb2).x - moving_corner(q, bb1).x;
    let dy = facing_corner(q, bb2).y - moving_corner(q, bb1).y;
    if !intersects_spec(bb1, bb2) {
        (b, false)
    } else if axis_spec(dx, dy, b.velocity.x as int, b.velocity.y as int) == Axis::X {
        (
            Body {
                position: vec2(sat(b.position.x + dx), b.position.y as int),
                velocity: Vec2 { x: 0, y: b.velocity.y },
                ..b
            },
            false,
        )
    } else {
        (
            Body {
                position: vec2(b.position.x as int, sat(b.position.y + dy)),
                velocity: Vec2 { x: b.velocity.x, y: 0 },
                ..b
            },
            is_upper(q),
        )
    }
}

/// A player that a platform stops from above comes to lie exactly on the
/// platform's top, with no vertical speed left, and still touches it.
pub proof fn lemma_landing_rests_on_top(b: Body, p: Platform)
    requires
        b.wf(),
        p.wf(),
        platform_contact_spec(b, p).1,
        in_range(p.position.y + p.size.y / 2 + b.size.y / 2),
    ensures
        platform_contact_spec(b, p).0.position.y - b.size.y / 2 == p.position.y + p.size.y / 2,
        platform_contact_spec(b, p).0.position.x == b.position.x,
        platform_contact_spec(b, p).0.velocity == (Vec2 { x: b.velocity.x, y: 0 }),
        intersects_spec(
            aabb_spec(
                platform_contact_spec(b, p).0.position.x as int,
                platform_contact_spec(b, p).0.position.y as int,
                b.size,
            ),
            aabb_spec(p.position.x as int, p.position.y as int, p.size),
        ),
{
}

/// A player after meeting the first `n` platforms of `ps` in turn, and
/// whether any of them left it resting on its top.
pub open spec fn platforms_fold(b: Body, ps: Seq<Platform>, n: nat) -> (Body, bool)
    decreases n,
{
    if n == 0 {
        (b, false)
    } else {
        let prev = platforms_fold(b, ps, (n - 1) as nat);
        let next = platform_contact_spec(prev.0, ps[n - 1]);
        (next.0, prev.1 || next.1)
    }
}

/// A player after a tick's resolution against all platforms: the grounded
/// flag is computed afresh, true exactly when some contact grounded it.
pub open spec fn against_platforms(b: Body, ps: Seq<Platform>) -> Body {
    let r = platforms_fold(b, ps, ps.len());
    Body { on_platform: r.1, ..r.0 }
}

/// Two players after meeting each other.
pub open spec fn player_contact_spec(a: Body, b: Body) -> (Body, Body) {
    let bb1 = aabb_spec(a.position.x as int, a.position.y as int, a.size);
    let bb2 = aabb_spec(b.position.x as int, b.position.y as int, b.size);
    let q = quadrant_spec(
        (a.position.x - a.velocity.x) - (b.position.x - b.velocity.x),
        (a.position.y - a.velocity.y) - (b.position.y - b.velocity.y),
    );
    let dx = facing_corner(q, bb2).x - moving_corner(q, bb1).x;
    let dy = facing_corner(q, bb2).y - moving_corner(q, bb1).y;
    let va = vec2(
        elastic_spec(a.mass as int, a.velocity.x as int, b.mass as int, b.velocity.x as int,
            a.velocity.x as int),
        elastic_spec(a.mass as int, a.velocity.y as int, b.mass as int, b.velocity.y as int,
            a.velocity.y as int),
    );
    let vb = vec2(
        elastic_spec(a.mass as int, a.velocity.x as int, b.mass as int, b.velocity.x as int,
            b.velocity.x as int),
        elastic_spec(a.mass as int, a.velocity.y as int, b.mass as int, b.velocity.y as int,
            b.velocity.y as int),
    );
    if !intersects_spec(bb1, bb2) {
        (a, b)
    } else if axis_spec(dx, dy, a.velocity.x - b.velocity.x, a.velocity.y - b.velocity.y)
        == Axis::X {
        (
            Body {
                position: vec2(sat(a.position.x + tdiv(dx, 2)), a.position.y as int),
                velocity: va,
                ..a
            },
            Body {
                position: vec2(sat(b.position.x - tdiv(dx, 2)), b.position.y as int),
                velocity: vb,
                ..b
            },
        )
    } else {
        (
            Body {
                position: vec2(a.position.x as int, sat(a.position.y + tdiv(dy, 2))),
                velocity: va,
                on_platform: a.on_platform || is_upper(q),
                ..a
            },
            Body {
                position: vec2(b.position.x as int, sat(b.position.y - tdiv(dy, 2))),
                velocity: vb,
                on_platform: b.on_platform || !is_upper(q),
                ..b
            },
        )
    }
}

/// The players after player `i` has met the players `j`, `j + 1`, ... in
/// turn.
pub open spec fn collide_row(s: Seq<Body>, i: int, j: int) -> Seq<Body>
    decreases s.len() - j,
{
    if 0 <= i < j < s.len() {
        let r = player_contact_spec(s[i], s[j]);
        collide_row(s.update(i, r.0).update(j, r.1), i, j + 1)
    } else {
        s
    }
}

/// The players after every pair `(k, l)` with `i <= k < l < n` has met
/// once, in the order `(i, i + 1)`, `(i, i + 2)`, ..., `(i + 1, i + 2)`, ...
pub open spec fn collide_rows(s: Seq<Body>, i: int, n: int) -> Seq<Body>
    decreases n - i,
{
    if 0 <= i < n {
        collide_rows(collide_row(s, i, i + 1), i + 1, n)
    } else {
        s
    }
}

/// The players after every pair of them has met once.
pub open spec fn collide_all(s: Seq<Body>) -> Seq<Body> {
    collide_rows(s, 0, s.len() as int)
}

/// Every body of the sequence is well-formed.
pub open spec fn all_wf(s: Seq<Body>) -> bool {
    forall|k: int| 0 <= k < s.len() ==> (#[trigger] s[k]).wf()
}

/// Every platform of the sequence is well-formed.
pub open spec fn all_platforms_wf(s: Seq<Platform>) -> bool {
    forall|k: int| 0 <= k < s.len() ==> (#[trigger] s[k]).wf()
}

impl Aabb {
    /// The box of extent `size` around `center`.
    pub fn new(center: Vec2, size: Vec2) -> (r: Aabb)
        requires
            within(center, 2),
            size_ok(size),
        ensures
            r == aabb_spec(center.x as int, center.y as int, size),
            within(r.min, 3),
            within(r.max, 3),
            r.min.x < r.max.x,
            r.min.y < r.max.y,
    {
        let hx: i64 = ((size.x as u64) / 2) as i64;
        let hy: i64 = ((size.y as u64) / 2) as i64;
        Aabb {
            min: Vec2 { x: center.x - hx, y: center.y - hy },
            max: Vec2 { x: center.x + hx, y: center.y + hy },
        }
    }

    /// Whether the two boxes share a point; touching edges count.
    pub fn intersects(&self, o: &Aabb) -> (r: bool)
        ensures
            r == intersects_spec(*self, *o),
    {
        self.min.x <= o.max.x && self.max.x >= o.min.x && self.min.y <= o.max.y && self.max.y
            >= o.min.y
    }

    /// The point of the box nearest to `p`.
    pub fn closest_point(&self, p: Vec2) -> (r: Vec2)
        ensures
            r == closest_point_spec(*self, p),
    {
        let x: i64 = if p.x < self.min.x {
            self.min.x
        } else if p.x > self.max.x {
            self.max.x
        } else {
            p.x
        };
        let y: i64 = if p.y < self.min.y {
            self.min.y
        } else if p.y > self.max.y {
            self.max.y
        } else {
            p.y
        };
        Vec2 { x, y }
    }
}

/// Classifies an offset: left where `x <= 0`, upper where `y >= 0`.
pub fn classify(offset: Vec2) -> (q: Quadrant)
    ensures
        q == quadrant_spec(offset.x as int, offset.y as int),
{
    if offset.x <= 0 {
        if offset.y >= 0 {
            Quadrant::UpperLeft
        } else {
            Quadrant::LowerLeft
        }
    } else {
        if offset.y >= 0 {
            Quadrant::UpperRight
        } else {
            Quadrant::LowerRight
        }
    }
}

/// The distance from the facing corner of the moving box `a` to the facing
/// corner of the other box `b`, for a contact in quadrant `q`.
pub fn corner_distance(q: Quadrant, a: &Aabb, b: &Aabb) -> (d: Vec2)
    requires
        within(a.min, 3),
        within(a.max, 3),
        within(b.min, 3),
        within(b.max, 3),
    ensures
        d.x == facing_corner(q, *b).x - moving_corner(q, *a).x,
        d.y == facing_corner(q, *b).y - moving_corner(q, *a).y,
        within(d, 6),
{
    match q {
        Quadrant::LowerRight => Vec2 { x: b.max.x - a.min.x, y: b.min.y - a.max.y },
        Quadrant::LowerLeft => Vec2 { x: b.min.x - a.max.x, y: b.min.y - a.max.y },
        Quadrant::UpperRight => Vec2 { x: b.max.x - a.min.x, y: b.max.y - a.min.y },
        Quadrant::UpperLeft => Vec2 { x: b.min.x - a.max.x, y: b.max.y - a.min.y },
    }
}

/// Magnitude of a number that has one.
fn magnitude(a: i64) -> (r: i64)
    requires
        a > i64::MIN,
    ensures
        r as int == abs(a as int),
{
    if a < 0 {
        -a
    } else {
        a
    }
}

/// The axis along which a contact with corner distance `d` and (relative)
/// velocity `v` is resolved.
pub fn resolution_axis(d: Vec2, v: Vec2) -> (r: Axis)
    requires
        within(d, 6),
        within(v, 2),
    ensures
        r == axis_spec(d.x as int, d.y as int, v.x as int, v.y as int),
{
    let adx: i64 = magnitude(d.x);
    let ady: i64 = magnitude(d.y);
    let avx: i64 = magnitude(v.x);
    let avy: i64 = magnitude(v.y);
    proof {
        lemma_mul_bound(d.x as int, v.x as int, 6 * LIMIT, 2 * LIMIT);
        lemma_mul_bound(adx as int, avy as int, 6 * LIMIT, 2 * LIMIT);
        lemma_mul_bound(ady as int, avx as int, 6 * LIMIT, 2 * LIMIT);
        assert((6 * LIMIT) * (2 * LIMIT) == 120_000_000_000_000_000) by (nonlinear_arith);
    }
    if d.x * v.x < 0 && adx * avy < ady * avx {
        Axis::X
    } else {
        Axis::Y
    }
}

/// One body's velocity on one axis after an elastic collision of bodies of
/// mass `m1` and `m2` with velocities `v1` and `v2` on that axis.
pub fn elastic(m1: i64, v1: i64, m2: i64, v2: i64, own: i64) -> (r: i64)
    requires
        mass_ok(m1),
        mass_ok(m2),
        in_range(v1 as int),
        in_range(v2 as int),
        in_range(own as int),
    ensures
        r as int == elastic_spec(m1 as int, v1 as int, m2 as int, v2 as int, own as int),
        in_range(r as int),
{
    proof {
        lemma_mul_bound(m1 as int, v1 as int, MAX_MASS as int, LIMIT as int);
        lemma_mul_bound(m2 as int, v2 as int, MAX_MASS as int, LIMIT as int);
        assert(MAX_MASS * LIMIT == 100_000_000_000_000) by (nonlinear_arith);
    }
    let p: i64 = 2 * (m1 * v1 + m2 * v2);
    proof {
        lemma_tdiv_bounds(p as int, m1 + m2);
    }
    clamp(div_trunc(p, m1 + m2) - own)
}

/// Resolves a player against one platform. Where the two boxes overlap the
/// player is put back along one axis and stopped on it; the flag says
/// whether it came to rest on the platform's top.
pub fn resolve_platform(b: Body, p: &Platform) -> (r: (Body, bool))
    requires
        b.wf(),
        p.wf(),
    ensures
        r == platform_contact_spec(b, *p),
        r.0.wf(),
{
    let bb1 = Aabb::new(b.position, b.size);
    let before = Aabb::new(
        Vec2 { x: b.position.x - b.velocity.x, y: b.position.y - b.velocity.y },
        b.size,
    );
    let bb2 = Aabb::new(p.position, p.size);
    if !bb1.intersects(&bb2) {
        return (b, false);
    }
    let near = before.closest_point(p.position);
    let q = classify(Vec2 { x: near.x - p.position.x, y: near.y - p.position.y });
    let d = corner_distance(q, &bb1, &bb2);
    let mut out = b;
    match resolution_axis(d, b.velocity) {
        Axis::X => {
            out.position = Vec2 { x: clamp(b.position.x + d.x), y: b.position.y };
            out.velocity = Vec2 { x: 0, y: b.velocity.y };
            (out, false)
        },
        Axis::Y => {
            out.position = Vec2 { x: b.position.x, y: clamp(b.position.y + d.y) };
            out.velocity = Vec2 { x: b.velocity.x, y: 0 };
            let upper = match q {
                Quadrant::UpperLeft => true,
                Quadrant::UpperRight => true,
                _ => false,
            };
            (out, upper)
        },
    }
}

/// Resolves every player against every platform, in order, and sets each
/// player's grounded flag afresh: true exactly when one of this tick's
/// contacts left it on a platform's top.
pub fn platform_collide(bodies: &mut Vec<Body>, platforms: &Vec<Platform>)
    requires
        all_wf(old(bodies)@),
        all_platforms_wf(platforms@),
    ensures
        final(bodies)@.len() == old(bodies)@.len(),
        forall|k: int|
            0 <= k < old(bodies)@.len() ==> #[trigger] final(bodies)@[k] == against_platforms(
                old(bodies)@[k],
                platforms@,
            ),
        all_wf(final(bodies)@),
{
    let ghost start = bodies@;
    let n = bodies.len();
    let mut i: usize = 0;
    while i < n
        invariant
            n == bodies@.len(),
            n == start.len(),
            i <= n,
            all_wf(bodies@),
            all_platforms_wf(platforms@),
            forall|k: int| 0 <= k < i ==> #[trigger] bodies@[k] == against_platforms(start[k], platforms@),
            forall|k: int| i <= k < n ==> #[trigger] bodies@[k] == start[k],
        decreases n - i,
    {
        let mut body = bodies[i];
        let mut is_on_platform = false;
        let mut j: usize = 0;
        while j < platforms.len()
            invariant
                j <= platforms@.len(),
                i < n,
                n == start.len(),
                all_platforms_wf(platforms@),
                body.wf(),
                (body, is_on_platform) == platforms_fold(start[i as int], platforms@, j as nat),
            decreases platforms@.len() - j,
        {
            let r = resolve_platform(body, &platforms[j]);
            body = r.0;
            is_on_platform = is_on_platform || r.1;
            j = j + 1;
        }
        body.on_platform = is_on_platform;
        bodies[i] = body;
        i = i + 1;
    }
}

/// Resolves two players against each other. Where their boxes overlap each
/// is moved half the corner distance along one axis, away from the other,
/// and both exchange momentum on both axes.
pub fn resolve_players(a: Body, b: Body) -> (r: (Body, Body))
    requires
        a.wf(),
        b.wf(),
    ensures
        r == player_contact_spec(a, b),
        r.0.wf(),
        r.1.wf(),
{
    let bb1 = Aabb::new(a.position, a.size);
    let bb2 = Aabb::new(b.position, b.size);
    if !bb1.intersects(&bb2) {
        return (a, b);
    }
    let q = classify(
        Vec2 {
            x: (a.position.x - a.velocity.x) - (b.position.x - b.velocity.x),
            y: (a.position.y - a.velocity.y) - (b.position.y - b.velocity.y),
        },
    );
    let d = corner_distance(q, &bb1, &bb2);
    let rel = Vec2 { x: a.velocity.x - b.velocity.x, y: a.velocity.y - b.velocity.y };
    let upper = match q {
        Quadrant::UpperLeft => true,
        Quadrant::UpperRight => true,
        _ => false,
    };
    let mut na = a;
    let mut nb = b;
    proof {
        lemma_tdiv_bounds(d.x as int, 2);
        lemma_tdiv_bounds(d.y as int, 2);
    }
    match resolution_axis(d, rel) {
        Axis::X => {
            let half: i64 = div_trunc(d.x, 2);
            na.position = Vec2 { x: clamp(a.position.x + half), y: a.position.y };
            nb.position = Vec2 { x: clamp(b.position.x - half), y: b.position.y };
        },
        Axis::Y => {
            let half: i64 = div_trunc(d.y, 2);
            na.position = Vec2 { x: a.position.x, y: clamp(a.position.y + half) };
            nb.position = Vec2 { x: b.position.x, y: clamp(b.position.y - half) };
            if upper {
                na.on_platform = true;
            } else {
                nb.on_platform = true;
            }
        },
    }
    na.velocity = Vec2 {
        x: elastic(a.mass, a.velocity.x, b.mass, b.velocity.x, a.velocity.x),
        y: elastic(a.mass, a.velocity.y, b.mass, b.velocity.y, a.velocity.y),
    };
    nb.velocity = Vec2 {
        x: elastic(a.mass, a.velocity.x, b.mass, b.velocity.x, b.velocity.x),
        y: elastic(a.mass, a.velocity.y, b.mass, b.velocity.y, b.velocity.y),
    };
    (na, nb)
}

/// Resolves every pair of players once, in the order `(0, 1)`, `(0, 2)`,
/// ..., `(1, 2)`, ...; a later pair sees what the earlier ones left.
pub fn player_collide(bodies: &mut Vec<Body>)
    requires
        all_wf(old(bodies)@),
    ensures
        final(bodies)@ == collide_all(old(bodies)@),
        final(bodies)@.len() == old(bodies)@.len(),
        all_wf(final(bodies)@),
{
    let ghost start = bodies@;
    let n = bodies.len();
    let mut i: usize = 0;
    while i < n
        invariant
            n == bodies@.len(),
            n == start.len(),
            i <= n,
            all_wf(bodies@),
            collide_rows(bodies@, i as int, n as int) == collide_rows(start, 0, n as int),
        decreases n - i,
    {
        let ghost row_start = bodies@;
        let mut j: usize = i + 1;
        while j < n
            invariant
                n == bodies@.len(),
                n == row_start.len(),
                i < j <= n,
                all_wf(bodies@),
                collide_row(bodies@, i as int, j as int) == collide_row(row_start, i as int, i + 1),
            decreases n - j,
        {
            let r = resolve_players(bodies[i], bodies[j]);
            bodies[i] = r.0;
            bodies[j] = r.1;
            j = j + 1;
        }
        i = i + 1;
    }
}

} // verus!

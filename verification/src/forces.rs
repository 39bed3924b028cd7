//! What acts on one player during a tick: movement, gravity, drag, the
//! jump, the special move, and the integration of the sum.

use vstd::prelude::*;
use crate::fixed::{
    abs, adiv, clamp, div_away, lemma_adiv_bounds, lemma_adiv_grows, lemma_mul_bound,
    lemma_sqrt_exists, sat, LIMIT, SCALE,
};
use crate::vec2::{norm_sq, vec2, Vec2};
use crate::body::{Body, Cooldown, COOLDOWN_DURATION, DEFAULT_MASS, SPECIAL_MOVE_MASS};

verus! {

/// Upward speed that a jump adds.
pub const PLAYER_JUMP_VEL: i64 = 40_000;

/// Speed that a special move adds, in units.
pub const SPECIAL_MOVE_SPEED: i64 = 50;

/// Recovery time after which a player is light again, in microseconds.
pub const COOLDOWN_MIDPOINT: u64 = 500_000;

/// Drag per squared speed, in thousandths.
pub const DRAG_QUADRATIC: i64 = 5;

/// Drag per speed, in thousandths.
pub const DRAG_LINEAR: i64 = 50;

/// Horizontal speed from which the sprite turns to face its motion.
pub const FLIP_SPEED: i64 = 5000;

/// The direction that four held keys ask for, of length one unit or zero.
pub open spec fn intent_spec(left: bool, right: bool, up: bool, down: bool) -> Vec2 {
    vec2(
        (if right { SCALE as int } else { 0 }) - (if left { SCALE as int } else { 0 }),
        (if up { SCALE as int } else { 0 }) - (if down { SCALE as int } else { 0 }),
    ).unit_spec()
}

/// Millionths in one: the scale of a product of two thousandths.
pub const DRAG_SCALE: i64 = 1_000_000;

/// Difference between two speeds on an axis, in steps, from which on the
/// faster one is sure to feel more drag: a step of drag per
/// `DRAG_SCALE / (DRAG_LINEAR * SCALE)` steps of speed.
pub const DRAG_RESOLUTION: i64 = 20;

/// The factor of the drag on a body of velocity `v`, in millionths:
/// `k1 * |v| + k2`. The drag `-(k1 * |v|^2 + k2 * |v|) * v / |v|` is this
/// factor times `-v`.
pub open spec fn drag_factor(v: Vec2) -> int {
    DRAG_QUADRATIC * v.length_spec() + DRAG_LINEAR * SCALE
}

/// The drag along one axis on a body that moves at `a` steps along it,
/// for the given factor: `-factor * a`, in steps, rounded away from zero
/// so that whatever moves is slowed, and brought into range.
pub open spec fn drag_component(factor: int, a: int) -> int {
    sat(-adiv(factor * a, DRAG_SCALE as int))
}

/// The drag on a body of velocity `v`: `-(k1 * |v| + k2) * v`; zero where
/// `v` is zero.
pub open spec fn drag_spec(v: Vec2) -> Vec2 {
    vec2(
        drag_component(drag_factor(v), v.x as int),
        drag_component(drag_factor(v), v.y as int),
    )
}

/// The elapsed time of a recovery after `delta` more microseconds: it stops
/// at the duration.
pub open spec fn ticked(elapsed: u64, delta: u64) -> u64 {
    if elapsed + delta >= COOLDOWN_DURATION {
        COOLDOWN_DURATION
    } else {
        (elapsed + delta) as u64
    }
}

/// The velocity after a special move in the direction `intent`, or, where
/// `intent` is zero, in the direction of the velocity itself.
pub open spec fn boosted(v: Vec2, intent: Vec2) -> Vec2 {
    let dir = if intent.unit_spec().x == 0 && intent.unit_spec().y == 0 {
        v.unit_spec()
    } else {
        intent.unit_spec().unit_spec()
    };
    vec2(sat(v.x + SPECIAL_MOVE_SPEED * dir.x), sat(v.y + SPECIAL_MOVE_SPEED * dir.y))
}

/// The factor of the drag is positive, and at least the linear part.
pub proof fn lemma_drag_factor(v: Vec2)
    requires
        v.wf(),
    ensures
        DRAG_LINEAR * SCALE <= drag_factor(v),
        v.length_spec() >= 0,
{
    assert(v.x * v.x >= 0 && v.y * v.y >= 0) by (nonlinear_arith);
    lemma_sqrt_exists(norm_sq(v.x as int, v.y as int) as nat);
}

/// The drag along an axis points against the motion along it and is zero
/// only without such motion; its length is that of `factor * a`
/// in millionths, rounded up, or the edge of the range.
pub proof fn lemma_drag_component(factor: int, a: int)
    requires
        factor > 0,
    ensures
        a > 0 ==> drag_component(factor, a) < 0,
        a < 0 ==> drag_component(factor, a) > 0,
        a == 0 ==> drag_component(factor, a) == 0,
        abs(drag_component(factor, a)) == if adiv(factor * abs(a), DRAG_SCALE as int) <= LIMIT {
            adiv(factor * abs(a), DRAG_SCALE as int)
        } else {
            LIMIT as int
        },
{
    assert(a > 0 ==> factor * a > 0) by (nonlinear_arith)
        requires
            factor > 0,
    ;
    assert(a < 0 ==> factor * a < 0) by (nonlinear_arith)
        requires
            factor > 0,
    ;
    assert(a == 0 ==> factor * a == 0) by (nonlinear_arith);
    assert(factor * (-a) == -(factor * a)) by (nonlinear_arith);
    lemma_adiv_bounds(factor * a, DRAG_SCALE as int);
    lemma_adiv_bounds(factor * abs(a), DRAG_SCALE as int);
}

/// Drag opposes motion: on each axis on which the body moves, the drag is
/// not zero and points against the motion; on an axis without motion it
/// is zero. So a body at rest feels none, and for every other body the
/// product of drag and velocity, summed over the axes, is negative.
pub proof fn lemma_drag_opposes(v: Vec2)
    requires
        v.wf(),
    ensures
        v.x > 0 ==> drag_spec(v).x < 0,
        v.x < 0 ==> drag_spec(v).x > 0,
        v.x == 0 ==> drag_spec(v).x == 0,
        v.y > 0 ==> drag_spec(v).y < 0,
        v.y < 0 ==> drag_spec(v).y > 0,
        v.y == 0 ==> drag_spec(v).y == 0,
        (v.x == 0 && v.y == 0) ==> drag_spec(v) == (Vec2 { x: 0, y: 0 }),
        (v.x != 0 || v.y != 0) ==> drag_spec(v).x * v.x + drag_spec(v).y * v.y < 0,
        drag_spec(v).wf(),
{
    lemma_drag_factor(v);
    lemma_drag_component(drag_factor(v), v.x as int);
    lemma_drag_component(drag_factor(v), v.y as int);
    let dx = drag_spec(v).x as int;
    let dy = drag_spec(v).y as int;
    let x = v.x as int;
    let y = v.y as int;
    assert(dx * x <= 0 && (x != 0 ==> dx * x < 0)) by (nonlinear_arith)
        requires
            x > 0 ==> dx < 0,
            x < 0 ==> dx > 0,
            x == 0 ==> dx == 0,
    ;
    assert(dy * y <= 0 && (y != 0 ==> dy * y < 0)) by (nonlinear_arith)
        requires
            y > 0 ==> dy < 0,
            y < 0 ==> dy > 0,
            y == 0 ==> dy == 0,
    ;
}

/// Drag is the velocity turned round and scaled: with the one positive
/// factor `drag_factor(v)` for both axes, each component of the drag,
/// where it did not have to be brought into range, is less than a step
/// beyond `-factor * v` on its axis. The drag has no part across the
/// motion but what that rounding leaves.
pub proof fn lemma_drag_antiparallel(v: Vec2)
    requires
        v.wf(),
    ensures
        drag_factor(v) > 0,
        abs(drag_spec(v).x as int) < LIMIT ==> abs(
            -drag_spec(v).x * DRAG_SCALE - drag_factor(v) * v.x,
        ) < DRAG_SCALE,
        abs(drag_spec(v).y as int) < LIMIT ==> abs(
            -drag_spec(v).y * DRAG_SCALE - drag_factor(v) * v.y,
        ) < DRAG_SCALE,
{
    lemma_drag_factor(v);
    let f = drag_factor(v);
    lemma_adiv_bounds(f * v.x, DRAG_SCALE as int);
    lemma_adiv_bounds(f * v.y, DRAG_SCALE as int);
}

/// Drag grows with speed. Of two bodies, the one that is at least as fast
/// overall and along an axis feels at least as much drag along that axis;
/// and strictly more where it is faster along the axis by
/// `DRAG_RESOLUTION` steps and its drag did not have to be brought into
/// range. Closer speeds than that can round to the same drag.
pub proof fn lemma_drag_grows(v: Vec2, w: Vec2)
    requires
        v.wf(),
        w.wf(),
        v.length_spec() <= w.length_spec(),
    ensures
        abs(v.x as int) <= abs(w.x as int) ==> abs(drag_spec(v).x as int) <= abs(
            drag_spec(w).x as int,
        ),
        abs(v.x as int) + DRAG_RESOLUTION <= abs(w.x as int) && abs(drag_spec(w).x as int) < LIMIT
            ==> abs(drag_spec(v).x as int) < abs(drag_spec(w).x as int),
        abs(v.y as int) <= abs(w.y as int) ==> abs(drag_spec(v).y as int) <= abs(
            drag_spec(w).y as int,
        ),
        abs(v.y as int) + DRAG_RESOLUTION <= abs(w.y as int) && abs(drag_spec(w).y as int) < LIMIT
            ==> abs(drag_spec(v).y as int) < abs(drag_spec(w).y as int),
{
    lemma_drag_factor(v);
    lemma_drag_factor(w);
    lemma_drag_component_grows(drag_factor(v), v.x as int, drag_factor(w), w.x as int);
    lemma_drag_component_grows(drag_factor(v), v.y as int, drag_factor(w), w.y as int);
}

/// The drag along an axis grows with the factor and with the speed along
/// the axis together.
pub proof fn lemma_drag_component_grows(f1: int, a1: int, f2: int, a2: int)
    requires
        DRAG_LINEAR * SCALE <= f1 <= f2,
    ensures
        abs(a1) <= abs(a2) ==> abs(drag_component(f1, a1)) <= abs(drag_component(f2, a2)),
        abs(a1) + DRAG_RESOLUTION <= abs(a2) && abs(drag_component(f2, a2)) < LIMIT ==> abs(
            drag_component(f1, a1),
        ) < abs(drag_component(f2, a2)),
{
    lemma_drag_component(f1, a1);
    lemma_drag_component(f2, a2);
    let x1 = f1 * abs(a1);
    let x2 = f2 * abs(a2);
    if abs(a1) <= abs(a2) {
        assert(0 <= x1 <= x2) by (nonlinear_arith)
            requires
                0 < f1 <= f2,
                0 <= abs(a1) <= abs(a2),
                x1 == f1 * abs(a1),
                x2 == f2 * abs(a2),
        ;
        if abs(a1) + DRAG_RESOLUTION <= abs(a2) {
            assert(x1 + 1_000_000 <= x2) by (nonlinear_arith)
                requires
                    50_000 <= f1 <= f2,
                    0 <= abs(a1),
                    abs(a1) + 20 <= abs(a2),
                    x1 == f1 * abs(a1),
                    x2 == f2 * abs(a2),
            ;
        }
        lemma_adiv_grows(x1, x2, DRAG_SCALE as int);
    }
}

/// Without charge the special move does nothing to the velocity, whether
/// it is asked for or not, as long as the recovery does not end in this
/// tick; and the charge stays spent.
pub proof fn lemma_special_move_needs_charge(b: Body, intent: Vec2, pressed: bool, delta: u64)
    requires
        b.wf(),
        !b.cooldown.charge,
        b.cooldown.elapsed + delta < COOLDOWN_DURATION,
    ensures
        b.with_special_move(intent, pressed, delta).velocity == b.velocity,
        !b.with_special_move(intent, pressed, delta).cooldown.charge,
{
}

/// With charge the special move boosts the body once: the charge is spent
/// at once and the recovery starts from zero, so that asking again within
/// the next `COOLDOWN_DURATION` changes no velocity; the tick that
/// completes the duration brings the charge back.
pub proof fn lemma_special_move_once(
    b: Body,
    intent: Vec2,
    delta: u64,
    again: Vec2,
    pressed: bool,
    later: u64,
)
    requires
        b.wf(),
        b.cooldown.charge,
    ensures
        b.with_special_move(intent, true, delta).velocity == boosted(b.velocity, intent),
        b.with_special_move(intent, true, delta).cooldown == (Cooldown {
            elapsed: 0,
            charge: false,
        }),
        b.with_special_move(intent, true, delta).mass == SPECIAL_MOVE_MASS,
        b.with_special_move(intent, true, delta).tinted,
        later < COOLDOWN_DURATION ==> b.with_special_move(intent, true, delta).with_special_move(
            again,
            pressed,
            later,
        ).velocity == boosted(b.velocity, intent),
        later >= COOLDOWN_DURATION ==> b.with_special_move(intent, true, delta).with_special_move(
            again,
            false,
            later,
        ).cooldown == (Cooldown { elapsed: 0, charge: true }),
{
}

/// The weight of a special move is transient: a tick that leaves the
/// recovery before its midpoint leaves the mass as it is, and a tick that
/// brings the recovery to the midpoint or past it, in one step or in
/// many, makes the body light, unless the move is made anew in that very
/// tick. So a body whose charge has come back is light.
pub proof fn lemma_recovery_makes_light(b: Body, intent: Vec2, pressed: bool, delta: u64)
    requires
        b.wf(),
        !b.cooldown.charge,
    ensures
        b.cooldown.elapsed + delta < COOLDOWN_MIDPOINT ==> b.with_special_move(
            intent,
            pressed,
            delta,
        ).mass == b.mass,
        COOLDOWN_MIDPOINT <= b.cooldown.elapsed + delta < COOLDOWN_DURATION
            ==> b.with_special_move(intent, pressed, delta).mass == DEFAULT_MASS,
        b.cooldown.elapsed + delta >= COOLDOWN_DURATION ==> b.with_special_move(
            intent,
            false,
            delta,
        ).mass == DEFAULT_MASS && b.with_special_move(intent, false, delta).cooldown.charge,
{
}

/// Builds a one-shot `bevy::time::Timer` of `duration` microseconds with
/// `Timer::new`, puts `elapsed` microseconds on it with `set_elapsed`,
/// advances it by `delta` with `Timer::tick` and reads `Timer::elapsed`.
/// Trusted: a tick of a one-shot timer adds `delta` to the elapsed time
/// and, where the sum reaches the duration, leaves the duration there.
#[verifier::external_body]
fn run_timer(duration: u64, elapsed: u64, delta: u64) -> (r: u64)
    ensures
        r as int == if elapsed + delta >= duration {
            duration as int
        } else {
            elapsed + delta
        },
{
    let mut timer = bevy::time::Timer::new(
        std::time::Duration::from_micros(duration),
        bevy::time::TimerMode::Once,
    );
    timer.set_elapsed(std::time::Duration::from_micros(elapsed));
    timer.tick(std::time::Duration::from_micros(delta));
    timer.elapsed().as_micros() as u64
}

/// The direction that four held keys ask for: left and right cancel, up
/// and down cancel, and a diagonal is shortened to one unit.
pub fn get_movement(left: bool, right: bool, up: bool, down: bool) -> (r: Vec2)
    ensures
        r == intent_spec(left, right, up, down),
        r.wf(),
{
    let mut x: i64 = 0;
    let mut y: i64 = 0;
    if left {
        x = x - SCALE;
    }
    if right {
        x = x + SCALE;
    }
    if up {
        y = y + SCALE;
    }
    if down {
        y = y - SCALE;
    }
    Vec2 { x, y }.normalize_or_zero()
}

/// The drag on a body of velocity `v`: against the velocity on each axis
/// on which the body moves, and zero for a body at rest.
pub fn drag(v: Vec2) -> (r: Vec2)
    requires
        v.wf(),
    ensures
        r == drag_spec(v),
        r.wf(),
        v.x > 0 ==> r.x < 0,
        v.x < 0 ==> r.x > 0,
        v.x == 0 ==> r.x == 0,
        v.y > 0 ==> r.y < 0,
        v.y < 0 ==> r.y > 0,
        v.y == 0 ==> r.y == 0,
{
    proof {
        lemma_drag_opposes(v);
    }
    let len: i64 = v.length();
    let factor: i64 = DRAG_QUADRATIC * len + DRAG_LINEAR * SCALE;
    proof {
        lemma_mul_bound(factor as int, v.x as int, 1_000_050_000, LIMIT as int);
        lemma_mul_bound(factor as int, v.y as int, 1_000_050_000, LIMIT as int);
        assert(1_000_050_000 * LIMIT == 100_005_000_000_000_000) by (nonlinear_arith);
        lemma_adiv_bounds(factor * v.x, DRAG_SCALE as int);
        lemma_adiv_bounds(factor * v.y, DRAG_SCALE as int);
    }
    Vec2 {
        x: clamp(-div_away(factor * v.x, DRAG_SCALE)),
        y: clamp(-div_away(factor * v.y, DRAG_SCALE)),
    }
}

impl Body {
    /// The body with the force of movement along `intent` added to its
    /// acceleration: the ground force where it stands, the air force else.
    pub open spec fn with_movement(self, intent: Vec2) -> Body {
        Body {
            acceleration: self.acceleration.plus_spec(
                intent.unit_spec().times_spec(
                    if self.on_platform {
                        self.force_ground
                    } else {
                        self.force_air
                    },
                ),
            ),
            ..self
        }
    }

    /// The body with its drag added to its acceleration.
    pub open spec fn with_friction(self) -> Body {
        Body { acceleration: self.acceleration.plus_spec(drag_spec(self.velocity)), ..self }
    }

    /// The body with gravity added to its acceleration.
    pub open spec fn with_gravitation(self) -> Body {
        Body { acceleration: self.acceleration.plus_spec(self.gravitation), ..self }
    }

    /// The body after a jump: the jump speed is added to the velocity at
    /// once, where the jump was asked for and the body stands; else the
    /// body as it was.
    pub open spec fn with_jump(self, pressed: bool) -> Body {
        if pressed && self.on_platform {
            Body {
                velocity: vec2(self.velocity.x as int, sat(self.velocity.y + PLAYER_JUMP_VEL)),
                ..self
            }
        } else {
            self
        }
    }

    /// The body after the first half of the special move's turn: a
    /// recovery that runs is advanced by `delta`, and once it has reached
    /// the midpoint the body is light again; where it has reached its end
    /// the charge is back and the tint gone.
    pub open spec fn recovered(self, delta: u64) -> Body {
        let elapsed = if self.cooldown.charge {
            self.cooldown.elapsed
        } else {
            ticked(self.cooldown.elapsed, delta)
        };
        let mass = if !self.cooldown.charge && elapsed >= COOLDOWN_MIDPOINT {
            DEFAULT_MASS
        } else {
            self.mass
        };
        if elapsed >= COOLDOWN_DURATION {
            Body { mass, cooldown: Cooldown { elapsed: 0, charge: true }, tinted: false, ..self }
        } else {
            Body { mass, cooldown: Cooldown { elapsed, charge: self.cooldown.charge }, ..self }
        }
    }

    /// The body after the special move's turn in a tick of `delta`
    /// microseconds: first the recovery advances; then, where the move was
    /// asked for and is charged, the body is boosted, made heavy and
    /// tinted, and the charge is spent.
    pub open spec fn with_special_move(self, intent: Vec2, pressed: bool, delta: u64) -> Body {
        let r = self.recovered(delta);
        if r.cooldown.charge && pressed {
            Body {
                velocity: boosted(r.velocity, intent),
                cooldown: Cooldown { elapsed: r.cooldown.elapsed, charge: false },
                tinted: true,
                mass: SPECIAL_MOVE_MASS,
                ..r
            }
        } else {
            r
        }
    }

    /// The body after integration: the acceleration goes into the
    /// velocity, the velocity into the position, and the acceleration is
    /// cleared.
    pub open spec fn integrated(self) -> Body {
        let v = self.velocity.plus_spec(self.acceleration);
        Body {
            velocity: v,
            position: self.position.plus_spec(v),
            acceleration: Vec2 { x: 0, y: 0 },
            ..self
        }
    }

    /// The body with its sprite turned to its motion, where it moves
    /// sideways at `FLIP_SPEED` or faster.
    pub open spec fn with_flip(self) -> Body {
        if self.velocity.x >= FLIP_SPEED || self.velocity.x <= -FLIP_SPEED {
            Body { flip_x: self.velocity.x > 0, ..self }
        } else {
            self
        }
    }

    /// Adds the force of movement along `intent` to the acceleration.
    pub fn movement_force(self, intent: Vec2) -> (r: Body)
        requires
            self.wf(),
            intent.wf(),
        ensures
            r == self.with_movement(intent),
            r.wf(),
    {
        let force = if self.on_platform {
            self.force_ground
        } else {
            self.force_air
        };
        let mut r = self;
        r.acceleration = self.acceleration.plus(intent.normalize_or_zero().times(force));
        r
    }

    /// Adds the drag to the acceleration.
    pub fn friction_force(self) -> (r: Body)
        requires
            self.wf(),
        ensures
            r == self.with_friction(),
            r.wf(),
    {
        let mut r = self;
        r.acceleration = self.acceleration.plus(drag(self.velocity));
        r
    }

    /// Adds gravity to the acceleration.
    pub fn gravitation_force(self) -> (r: Body)
        requires
            self.wf(),
        ensures
            r == self.with_gravitation(),
            r.wf(),
    {
        let mut r = self;
        r.acceleration = self.acceleration.plus(self.gravitation);
        r
    }

    /// Jumps, if asked to and standing on a platform.
    pub fn jump(self, pressed: bool) -> (r: Body)
        requires
            self.wf(),
        ensures
            r == self.with_jump(pressed),
            r.wf(),
    {
        let mut r = self;
        if pressed && self.on_platform {
            r.velocity = Vec2 { x: self.velocity.x, y: clamp(self.velocity.y + PLAYER_JUMP_VEL) };
        }
        r
    }

    /// Advances the special move's recovery by `delta` microseconds and
    /// then makes the move, if asked to and charged.
    pub fn special_move(self, intent: Vec2, pressed: bool, delta: u64) -> (r: Body)
        requires
            self.wf(),
            intent.wf(),
        ensures
            r == self.with_special_move(intent, pressed, delta),
            r.wf(),
    {
        let mut r = self;
        if !r.cooldown.charge {
            r.cooldown.elapsed = run_timer(COOLDOWN_DURATION, r.cooldown.elapsed, delta);
            if r.cooldown.elapsed >= COOLDOWN_MIDPOINT {
                r.mass = DEFAULT_MASS;
            }
        }
        if r.cooldown.elapsed >= COOLDOWN_DURATION {
            r.cooldown.charge = true;
            r.cooldown.elapsed = 0;
            r.tinted = false;
        }
        assert(r == self.recovered(delta));
        if r.cooldown.charge && pressed {
            let direction = intent.normalize_or_zero();
            let dir = if direction.x == 0 && direction.y == 0 {
                r.velocity.normalize_or_zero()
            } else {
                direction.normalize_or_zero()
            };
            r.velocity = Vec2 {
                x: clamp(r.velocity.x + SPECIAL_MOVE_SPEED * dir.x),
                y: clamp(r.velocity.y + SPECIAL_MOVE_SPEED * dir.y),
            };
            r.cooldown.charge = false;
            r.tinted = true;
            r.mass = SPECIAL_MOVE_MASS;
        }
        r
    }

    /// Integrates one tick and clears the acceleration.
    pub fn apply_velocity(self) -> (r: Body)
        requires
            self.wf(),
        ensures
            r == self.integrated(),
            r.wf(),
    {
        let v = self.velocity.plus(self.acceleration);
        let mut r = self;
        r.velocity = v;
        r.position = self.position.plus(v);
        r.acceleration = Vec2 { x: 0, y: 0 };
        r
    }

    /// Turns the sprite to face the body's motion.
    pub fn flip_sprite(self) -> (r: Body)
        ensures
            r == self.with_flip(),
            self.wf() ==> r.wf(),
    {
        let mut r = self;
        if self.velocity.x >= FLIP_SPEED || self.velocity.x <= -FLIP_SPEED {
            r.flip_x = self.velocity.x > 0;
        }
        r
    }
}

} // verus!

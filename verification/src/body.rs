//! The bodies of the arena: players, which move, and platforms, which do not.

use vstd::prelude::*;
use crate::fixed::{in_range, LIMIT};
use crate::vec2::Vec2;

verus! {

/// Mass of a player outside a special move, in thousandths.
pub const DEFAULT_MASS: i64 = 1000;

/// Mass of a player during the first part of a special move's recovery.
pub const SPECIAL_MOVE_MASS: i64 = 4000;

/// Largest mass a body may have.
pub const MAX_MASS: i64 = 1_000_000;

/// Horizontal force of a player that stands on a platform.
pub const PLAYER_MOVEMENT_FORCE_X: i64 = 2000;

/// Horizontal force of a player in the air.
pub const PLAYER_MOVEMENT_FORCE_AIR_X: i64 = 1500;

/// Vertical component of gravity.
pub const GRAVITATION_FORCE_Y: i64 = -1000;

/// Time a special move takes to recharge, in microseconds.
pub const COOLDOWN_DURATION: u64 = 2_000_000;

/// Width and height of a player.
pub const PLAYER_SIZE: i64 = 50_000;

/// The recharge state of a player's special move.
#[derive(Clone, Copy, Debug, PartialEq, Eq, Structural)]
pub struct Cooldown {
    /// Microseconds of recovery gone by, never more than `COOLDOWN_DURATION`.
    pub elapsed: u64,
    /// Whether the special move is ready.
    pub charge: bool,
}

impl Cooldown {
    /// The elapsed time does not pass the duration, and no recovery runs
    /// while the move is charged.
    pub open spec fn wf(self) -> bool {
        self.elapsed <= COOLDOWN_DURATION && (self.charge ==> self.elapsed == 0)
    }
}

/// A player: a moving axis-aligned rectangle with its game state.
#[derive(Clone, Copy, Debug, PartialEq, Eq, Structural)]
pub struct Body {
    /// The player's number, from 1.
    pub player: u32,
    /// Centre of the rectangle.
    pub position: Vec2,
    /// Full width and height.
    pub size: Vec2,
    pub velocity: Vec2,
    /// Acceleration gathered for the running tick.
    pub acceleration: Vec2,
    pub mass: i64,
    /// Force of movement while standing on a platform.
    pub force_ground: Vec2,
    /// Force of movement in the air.
    pub force_air: Vec2,
    pub gravitation: Vec2,
    /// Whether the body rested on a platform's top at the last resolution.
    pub on_platform: bool,
    pub cooldown: Cooldown,
    /// Number of falls.
    pub score: u32,
    /// Whether the sprite faces right.
    pub flip_x: bool,
    /// Whether the body shows the tint of a running special move.
    pub tinted: bool,
}

/// A platform: an immovable axis-aligned rectangle.
#[derive(Clone, Copy, Debug, PartialEq, Eq, Structural)]
pub struct Platform {
    /// Centre of the rectangle.
    pub position: Vec2,
    /// Full width and height.
    pub size: Vec2,
}

/// Smallest width or height of a body: two steps, so that the half-extent
/// `size / 2` is positive.
pub const MIN_SIZE: i64 = 2;

/// Whether `size` is a valid extent: in range on both axes, with a
/// positive half-extent on each.
pub open spec fn size_ok(size: Vec2) -> bool {
    MIN_SIZE <= size.x <= LIMIT && MIN_SIZE <= size.y <= LIMIT
}

/// A valid extent has a positive half-extent on both axes.
pub proof fn lemma_half_extent_positive(size: Vec2)
    requires
        size_ok(size),
    ensures
        size.x / 2 > 0,
        size.y / 2 > 0,
{
}

/// Whether `mass` is a valid mass.
pub open spec fn mass_ok(mass: i64) -> bool {
    0 < mass <= MAX_MASS
}

/// The player that `Body::new` builds from valid arguments.
pub open spec fn fresh_body(player: u32, position: Vec2, size: Vec2, mass: i64) -> Body {
    Body {
        player,
        position,
        size,
        velocity: Vec2 { x: 0, y: 0 },
        acceleration: Vec2 { x: 0, y: 0 },
        mass,
        force_ground: Vec2 { x: PLAYER_MOVEMENT_FORCE_X, y: 0 },
        force_air: Vec2 { x: PLAYER_MOVEMENT_FORCE_AIR_X, y: 0 },
        gravitation: Vec2 { x: 0, y: GRAVITATION_FORCE_Y },
        on_platform: false,
        cooldown: Cooldown { elapsed: 0, charge: true },
        score: 0,
        flip_x: false,
        tinted: false,
    }
}

impl Platform {
    /// Position in range, extent valid.
    pub open spec fn wf(self) -> bool {
        self.position.wf() && size_ok(self.size)
    }

    /// A platform, unless the position is out of range or the extent is
    /// out of range or under `MIN_SIZE` on an axis.
    pub fn new(position: Vec2, size: Vec2) -> (r: Option<Platform>)
        ensures
            r.is_some() <==> (position.wf() && size_ok(size)),
            r.is_some() ==> r.unwrap() == (Platform { position, size }) && r.unwrap().wf(),
    {
        if in_range_exec(position.x) && in_range_exec(position.y) && size.x >= MIN_SIZE && size.x <= LIMIT
            && size.y >= MIN_SIZE && size.y <= LIMIT {
            Some(Platform { position, size })
        } else {
            None
        }
    }
}

/// Whether a scalar is a coordinate in range.
pub fn in_range_exec(a: i64) -> (r: bool)
    ensures
        r == in_range(a as int),
{
    -LIMIT <= a && a <= LIMIT
}

impl Body {
    /// Every vector is in range, the extent is valid and the mass positive.
    pub open spec fn wf(self) -> bool {
        &&& self.position.wf()
        &&& size_ok(self.size)
        &&& self.velocity.wf()
        &&& self.acceleration.wf()
        &&& mass_ok(self.mass)
        &&& self.force_ground.wf()
        &&& self.force_air.wf()
        &&& self.gravitation.wf()
        &&& self.cooldown.wf()
    }

    /// A player at rest with a charged special move and no falls, unless
    /// the mass is not positive, the extent is under `MIN_SIZE` on an axis,
    /// or an argument is out of range.
    pub fn new(player: u32, position: Vec2, size: Vec2, mass: i64) -> (r: Option<Body>)
        ensures
            r.is_some() <==> (position.wf() && size_ok(size) && mass_ok(mass)),
            r.is_some() ==> r.unwrap() == fresh_body(player, position, size, mass)
                && r.unwrap().wf(),
    {
        if in_range_exec(position.x) && in_range_exec(position.y) && size.x >= MIN_SIZE && size.x <= LIMIT
            && size.y >= MIN_SIZE && size.y <= LIMIT && mass > 0 && mass <= MAX_MASS {
            Some(
                Body {
                    player,
                    position,
                    size,
                    velocity: Vec2 { x: 0, y: 0 },
                    acceleration: Vec2 { x: 0, y: 0 },
                    mass,
                    force_ground: Vec2 { x: PLAYER_MOVEMENT_FORCE_X, y: 0 },
                    force_air: Vec2 { x: PLAYER_MOVEMENT_FORCE_AIR_X, y: 0 },
                    gravitation: Vec2 { x: 0, y: GRAVITATION_FORCE_Y },
                    on_platform: false,
                    cooldown: Cooldown { elapsed: 0, charge: true },
                    score: 0,
                    flip_x: false,
                    tinted: false,
                },
            )
        } else {
            None
        }
    }
}

impl Default for Body {
    /// Player 1 at the origin, one unit wide and high, of default mass.
    fn default() -> (r: Body)
        ensures
            r == fresh_body(1, Vec2 { x: 0, y: 0 }, Vec2 { x: 1000, y: 1000 }, DEFAULT_MASS),
            r.wf(),
    {
        Body {
            player: 1,
            position: Vec2 { x: 0, y: 0 },
            size: Vec2 { x: 1000, y: 1000 },
            velocity: Vec2 { x: 0, y: 0 },
            acceleration: Vec2 { x: 0, y: 0 },
            mass: DEFAULT_MASS,
            force_ground: Vec2 { x: PLAYER_MOVEMENT_FORCE_X, y: 0 },
            force_air: Vec2 { x: PLAYER_MOVEMENT_FORCE_AIR_X, y: 0 },
            gravitation: Vec2 { x: 0, y: GRAVITATION_FORCE_Y },
            on_platform: false,
            cooldown: Cooldown { elapsed: 0, charge: true },
            score: 0,
            flip_x: false,
            tinted: false,
        }
    }
}

} // verus!

//! The steps of a tick before collision, each applied to every player.

use vstd::prelude::*;
use crate::vec2::Vec2;
use crate::body::Body;
use crate::collide::all_wf;

verus! {

/// What one player asks for in a tick.
#[derive(Clone, Copy, Debug, PartialEq, Eq, Structural)]
pub struct PlayerInput {
    /// The direction of movement asked for; any length.
    pub direction: Vec2,
    /// Whether a jump was asked for in this tick.
    pub jump: bool,
    /// Whether the special move was asked for in this tick.
    pub special: bool,
}

/// The input of a player who asks for nothing.
pub open spec fn idle_input() -> PlayerInput {
    PlayerInput { direction: Vec2 { x: 0, y: 0 }, jump: false, special: false }
}

/// The input of the player with the given number: player `k` reads the
/// entry `k - 1`; a player without an entry asks for nothing.
pub open spec fn input_for(inputs: Seq<PlayerInput>, player: u32) -> PlayerInput {
    if 1 <= player <= inputs.len() {
        inputs[player - 1]
    } else {
        idle_input()
    }
}

/// Every input's direction is in range.
pub open spec fn all_inputs_wf(inputs: Seq<PlayerInput>) -> bool {
    forall|k: int| 0 <= k < inputs.len() ==> (#[trigger] inputs[k]).direction.wf()
}

/// A player after all of a tick's steps that come before collision:
/// movement, drag, gravity, jump, special move, integration, facing.
pub open spec fn before_collision(b: Body, input: PlayerInput, delta: u64) -> Body {
    b.with_movement(input.direction).with_friction().with_gravitation().with_jump(
        input.jump,
    ).with_special_move(input.direction, input.special, delta).integrated().with_flip()
}

/// The input of the player with the given number.
pub fn get_input(inputs: &Vec<PlayerInput>, player: u32) -> (r: PlayerInput)
    requires
        all_inputs_wf(inputs@),
    ensures
        r == input_for(inputs@, player),
        r.direction.wf(),
{
    if player >= 1 && (player as usize) <= inputs.len() {
        inputs[(player - 1) as usize]
    } else {
        PlayerInput { direction: Vec2 { x: 0, y: 0 }, jump: false, special: false }
    }
}

/// Adds to every player's acceleration the force of the movement it asks
/// for.
pub fn movement_force(bodies: &mut Vec<Body>, inputs: &Vec<PlayerInput>)
    requires
        all_wf(old(bodies)@),
        all_inputs_wf(inputs@),
    ensures
        final(bodies)@.len() == old(bodies)@.len(),
        forall|k: int|
            0 <= k < old(bodies)@.len() ==> #[trigger] final(bodies)@[k] == old(
                bodies,
            )@[k].with_movement(input_for(inputs@, old(bodies)@[k].player).direction),
        all_wf(final(bodies)@),
{
    let ghost start = bodies@;
    let n = bodies.len();
    let mut i: usize = 0;
    while i < n
        invariant
            n == bodies@.len(),
            n == start.len(),
            i <= n,
            all_wf(bodies@),
            all_inputs_wf(inputs@),
            forall|k: int|
                0 <= k < i ==> #[trigger] bodies@[k] == start[k].with_movement(
                    input_for(inputs@, start[k].player).direction,
                ),
            forall|k: int| i <= k < n ==> #[trigger] bodies@[k] == start[k],
        decreases n - i,
    {
        let b = bodies[i];
        let input = get_input(inputs, b.player);
        bodies[i] = b.movement_force(input.direction);
        i = i + 1;
    }
}

/// Adds to every player's acceleration its drag.
pub fn friction_force(bodies: &mut Vec<Body>)
    requires
        all_wf(old(bodies)@),
    ensures
        final(bodies)@.len() == old(bodies)@.len(),
        forall|k: int|
            0 <= k < old(bodies)@.len() ==> #[trigger] final(bodies)@[k] == old(
                bodies,
            )@[k].with_friction(),
        all_wf(final(bodies)@),
{
    let ghost start = bodies@;
    let n = bodies.len();
    let mut i: usize = 0;
    while i < n
        invariant
            n == bodies@.len(),
            n == start.len(),
            i <= n,
            all_wf(bodies@),
            forall|k: int| 0 <= k < i ==> #[trigger] bodies@[k] == start[k].with_friction(),
            forall|k: int| i <= k < n ==> #[trigger] bodies@[k] == start[k],
        decreases n - i,
    {
        let b = bodies[i];
        bodies[i] = b.friction_force();
        i = i + 1;
    }
}

/// Adds gravity to every player's acceleration.
pub fn gravitation_force(bodies: &mut Vec<Body>)
    requires
        all_wf(old(bodies)@),
    ensures
        final(bodies)@.len() == old(bodies)@.len(),
        forall|k: int|
            0 <= k < old(bodies)@.len() ==> #[trigger] final(bodies)@[k] == old(
                bodies,
            )@[k].with_gravitation(),
        all_wf(final(bodies)@),
{
    let ghost start = bodies@;
    let n = bodies.len();
    let mut i: usize = 0;
    while i < n
        invariant
            n == bodies@.len(),
            n == start.len(),
            i <= n,
            all_wf(bodies@),
            forall|k: int| 0 <= k < i ==> #[trigger] bodies@[k] == start[k].with_gravitation(),
            forall|k: int| i <= k < n ==> #[trigger] bodies@[k] == start[k],
        decreases n - i,
    {
        let b = bodies[i];
        bodies[i] = b.gravitation_force();
        i = i + 1;
    }
}

/// Lets every player jump that asks to and stands on a platform.
pub fn jump(bodies: &mut Vec<Body>, inputs: &Vec<PlayerInput>)
    requires
        all_wf(old(bodies)@),
        all_inputs_wf(inputs@),
    ensures
        final(bodies)@.len() == old(bodies)@.len(),
        forall|k: int|
            0 <= k < old(bodies)@.len() ==> #[trigger] final(bodies)@[k] == old(
                bodies,
            )@[k].with_jump(input_for(inputs@, old(bodies)@[k].player).jump),
        all_wf(final(bodies)@),
{
    let ghost start = bodies@;
    let n = bodies.len();
    let mut i: usize = 0;
    while i < n
        invariant
            n == bodies@.len(),
            n == start.len(),
            i <= n,
            all_wf(bodies@),
            all_inputs_wf(inputs@),
            forall|k: int|
                0 <= k < i ==> #[trigger] bodies@[k] == start[k].with_jump(
                    input_for(inputs@, start[k].player).jump,
                ),
            forall|k: int| i <= k < n ==> #[trigger] bodies@[k] == start[k],
        decreases n - i,
    {
        let b = bodies[i];
        let input = get_input(inputs, b.player);
        bodies[i] = b.jump(input.jump);
        i = i + 1;
    }
}

/// Advances every player's recovery by `delta` microseconds and makes the
/// special move of each that asks for it and is charged.
pub fn special_move(bodies: &mut Vec<Body>, inputs: &Vec<PlayerInput>, delta: u64)
    requires
        all_wf(old(bodies)@),
        all_inputs_wf(inputs@),
    ensures
        final(bodies)@.len() == old(bodies)@.len(),
        forall|k: int|
            0 <= k < old(bodies)@.len() ==> #[trigger] final(bodies)@[k] == old(
                bodies,
            )@[k].with_special_move(
                input_for(inputs@, old(bodies)@[k].player).direction,
                input_for(inputs@, old(bodies)@[k].player).special,
                delta,
            ),
        all_wf(final(bodies)@),
{
    let ghost start = bodies@;
    let n = bodies.len();
    let mut i: usize = 0;
    while i < n
        invariant
            n == bodies@.len(),
            n == start.len(),
            i <= n,
            all_wf(bodies@),
            all_inputs_wf(inputs@),
            forall|k: int|
                0 <= k < i ==> #[trigger] bodies@[k] == start[k].with_special_move(
                    input_for(inputs@, start[k].player).direction,
                    input_for(inputs@, start[k].player).special,
                    delta,
                ),
            forall|k: int| i <= k < n ==> #[trigger] bodies@[k] == start[k],
        decreases n - i,
    {
        let b = bodies[i];
        let input = get_input(inputs, b.player);
        bodies[i] = b.special_move(input.direction, input.special, delta);
        i = i + 1;
    }
}

/// Integrates every player by one tick.
pub fn apply_velocity(bodies: &mut Vec<Body>)
    requires
        all_wf(old(bodies)@),
    ensures
        final(bodies)@.len() == old(bodies)@.len(),
        forall|k: int|
            0 <= k < old(bodies)@.len() ==> #[trigger] final(bodies)@[k] == old(
                bodies,
            )@[k].integrated(),
        all_wf(final(bodies)@),
{
    let ghost start = bodies@;
    let n = bodies.len();
    let mut i: usize = 0;
    while i < n
        invariant
            n == bodies@.len(),
            n == start.len(),
            i <= n,
            all_wf(bodies@),
            forall|k: int| 0 <= k < i ==> #[trigger] bodies@[k] == start[k].integrated(),
            forall|k: int| i <= k < n ==> #[trigger] bodies@[k] == start[k],
        decreases n - i,
    {
        let b = bodies[i];
        bodies[i] = b.apply_velocity();
        i = i + 1;
    }
}

/// Turns every player's sprite to face its motion.
pub fn flip_sprite(bodies: &mut Vec<Body>)
    requires
        all_wf(old(bodies)@),
    ensures
        final(bodies)@.len() == old(bodies)@.len(),
        forall|k: int|
            0 <= k < old(bodies)@.len() ==> #[trigger] final(bodies)@[k] == old(
                bodies,
            )@[k].with_flip(),
        all_wf(final(bodies)@),
{
    let ghost start = bodies@;
    let n = bodies.len();
    let mut i: usize = 0;
    while i < n
        invariant
            n == bodies@.len(),
            n == start.len(),
            i <= n,
            all_wf(bodies@),
            forall|k: int| 0 <= k < i ==> #[trigger] bodies@[k] == start[k].with_flip(),
            forall|k: int| i <= k < n ==> #[trigger] bodies@[k] == start[k],
        decreases n - i,
    {
        let b = bodies[i];
        bodies[i] = b.flip_sprite();
        i = i + 1;
    }
}

} // verus!

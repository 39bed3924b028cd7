//! Fixed-timestep rigid-body motion, collision resolution and match rules
//! for a small arena game.
//!
//! All quantities are fixed-point: an `i64` counts thousandths of a world
//! unit (of a unit per tick for velocities, of a unit of mass for masses),
//! and times are whole microseconds. Stored coordinates stay within
//! `fixed::LIMIT` of zero; a sum that would leave that range stops at its
//! edge. So no operation overflows, divides by zero or yields anything but
//! a number.
//!
//! A tick runs, in this order: the forces of `forces` on every player,
//! integration, the collisions of `collide` with the platforms and between
//! the players, and the respawns of `game`; `arena` puts them together and
//! holds the states of the game.

pub mod fixed;
pub mod vec2;
pub mod body;
pub mod collide;
pub mod forces;
pub mod systems;
pub mod game;
pub mod arena;

//! Fixed-point units and the constants of the game.
//!
//! Lengths are whole numbers of sub-units, time is whole microseconds and
//! direction components are millionths. One sub-unit is the distance covered
//! in one microsecond at one screen unit per second along a direction
//! component of one millionth, so a displacement is the plain product
//! `component * speed * microseconds`, with no rounding.

use vstd::prelude::*;

verus! {

/// Sub-units per screen unit.
pub const UNIT: i64 = 1_000_000_000_000;

/// A direction component of full length, in millionths.
pub const MICRO: i64 = 1_000_000;

/// The length of each component of a diagonal heading, in millionths.
pub const DIAGONAL: i64 = 707_000;

/// Side of the player's square.
pub const PLAYER_SIZE: i64 = 20_000_000_000_000;

/// Half the side of the player's square.
pub const PLAYER_HALF: i64 = 10_000_000_000_000;

/// Radius of an enemy.
pub const ENEMY_RADIUS: i64 = 15_000_000_000_000;

/// Width of a laser beam.
pub const LASER_WIDTH: i64 = 3_000_000_000_000;

/// Length of a laser beam as drawn.
pub const LASER_LENGTH: i64 = 15_000_000_000_000;

/// Distance below which a laser hits an enemy.
pub const HIT_RANGE: i64 = ENEMY_RADIUS + LASER_WIDTH;

/// Distance below which an enemy touches the player.
pub const TOUCH_RANGE: i64 = PLAYER_HALF + ENEMY_RADIUS;

/// How far beyond the screen a laser may fly before it is dropped.
pub const CULL_MARGIN: i64 = 50_000_000_000_000;

/// Player speed, in screen units per second.
pub const PLAYER_SPEED: i64 = 200;

/// Enemy speed, in screen units per second.
pub const ENEMY_SPEED: i64 = 50;

/// Laser speed, in screen units per second.
pub const LASER_SPEED: i64 = 400;

/// Time between two spawns, in microseconds.
pub const SPAWN_INTERVAL: u32 = 2_000_000;

/// Points scored for each pair of a laser and an enemy that it hits.
pub const SCORE_BONUS: i32 = 10;

/// Health of a fresh player.
pub const START_HEALTH: i32 = 100;

/// Spawn points lie on whole multiples of this many sub-units.
pub const SPAWN_GRAIN: i64 = 1000;

/// Largest screen width or height.
pub const MAX_SCREEN: i64 = 1_000_000_000_000_000_000;

/// Every coordinate the game stores lies within this distance of the origin.
pub const WORLD_LIMIT: i64 = 2_000_000_000_000_000_000;

/// Whether a coordinate lies inside the world.
pub open spec fn in_world(c: int) -> bool {
    -WORLD_LIMIT <= c <= WORLD_LIMIT
}

} // verus!

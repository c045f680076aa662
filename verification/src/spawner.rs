//! Periodic enemy spawning on the edges of the screen.

use vstd::prelude::*;
use crate::enemy::{Enemy, EnemyView};
use crate::screen::{Bounds, Screen};
use crate::units::{in_world, ENEMY_RADIUS, MAX_SCREEN, PLAYER_SIZE, SPAWN_GRAIN, SPAWN_INTERVAL};

verus! {

/// Whether a frame of `dt` microseconds takes the spawn timer past the
/// spawn interval.
pub open spec fn spawn_due(timer: int, dt: int) -> bool {
    timer + dt > SPAWN_INTERVAL
}

/// The spawn timer after a frame of `dt` microseconds: it starts over
/// whenever a spawn is due.
pub open spec fn timer_after(timer: int, dt: int) -> int {
    if spawn_due(timer, dt) {
        0
    } else {
        timer + dt
    }
}

/// The length of the edge with the given number: 0 is the top edge, 1 the
/// right, 2 the bottom and every other number the left.
pub open spec fn edge_length(side: int, b: Bounds) -> int {
    if side == 0 || side == 2 {
        b.width
    } else {
        b.height
    }
}

/// The enemy that appears `along` the edge with the given number, its
/// centre one radius outside the screen.
pub open spec fn spawn_at(side: int, along: int, b: Bounds) -> EnemyView {
    if side == 0 {
        EnemyView { x: along, y: -ENEMY_RADIUS, health: 1 }
    } else if side == 1 {
        EnemyView { x: b.width + ENEMY_RADIUS, y: along, health: 1 }
    } else if side == 2 {
        EnemyView { x: along, y: b.height + ENEMY_RADIUS, health: 1 }
    } else {
        EnemyView { x: -ENEMY_RADIUS, y: along, health: 1 }
    }
}

/// Whether `side` names one of the four edges and `along` a point of it.
pub open spec fn valid_roll(side: int, along: int, b: Bounds) -> bool {
    0 <= side < 4 && 0 <= along < edge_length(side, b)
}

/// Draws from `macroquad::rand::gen_range`, which is `gen_range` of the
/// crate `quad-rand`, with a lower bound of zero.
///
/// The generator takes a 32-bit draw `k`, computes `bound * (k / 2^32)` in
/// double precision and cuts the fraction off. A `bound` of at most 2^53 is
/// exact as a double, so the product is at least zero and strictly below
/// `bound`, and so is what comes back. Which of these numbers comes back is
/// not stated: it depends on the state of the generator.
#[verifier::external_body]
fn random_below(bound: i64) -> (r: i64)
    requires
        0 < bound <= 0x20_0000_0000_0000,
    ensures
        0 <= r < bound,
{
    macroquad::rand::gen_range(0i64, bound)
}

/// Adds a frame of `dt` microseconds to the spawn timer: the new timer, and
/// whether a spawn is due.
pub fn advance_timer(timer: u32, dt: u32) -> (r: (u32, bool))
    ensures
        r.0 == timer_after(timer as int, dt as int),
        r.1 == spawn_due(timer as int, dt as int),
        r.0 <= SPAWN_INTERVAL,
{
    let total: u64 = timer as u64 + dt as u64;
    if total > SPAWN_INTERVAL as u64 {
        (0, true)
    } else {
        (total as u32, false)
    }
}

/// The length of the edge with the given number.
pub fn edge_extent(side: i64, screen: &Screen) -> (r: i64)
    ensures
        r == edge_length(side as int, screen@),
        PLAYER_SIZE <= r <= MAX_SCREEN,
{
    if side == 0 || side == 2 {
        screen.width()
    } else {
        screen.height()
    }
}

/// The enemy that appears `along` the edge with the given number.
pub fn spawn_point(side: i64, along: i64, screen: &Screen) -> (r: Enemy)
    ensures
        r@ == spawn_at(side as int, along as int, screen@),
        in_world(along as int) ==> r@.wf(),
{
    let w = screen.width();
    let h = screen.height();
    match side {
        0 => Enemy { x: along, y: -ENEMY_RADIUS, health: 1 },
        1 => Enemy { x: w + ENEMY_RADIUS, y: along, health: 1 },
        2 => Enemy { x: along, y: h + ENEMY_RADIUS, health: 1 },
        _ => Enemy { x: -ENEMY_RADIUS, y: along, health: 1 },
    }
}

/// A random edge and a random point of it, on a whole multiple of the spawn
/// grain. Which edge and which point is left to the generator; the roll is
/// always a valid one.
pub fn random_roll(screen: &Screen) -> (r: (i64, i64))
    ensures
        valid_roll(r.0 as int, r.1 as int, screen@),
        r.1 % SPAWN_GRAIN == 0,
{
    let side = random_below(4);
    let along = random_below(edge_extent(side, screen) / SPAWN_GRAIN) * SPAWN_GRAIN;
    (side, along)
}

} // verus!

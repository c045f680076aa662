//! Enemies: they walk straight at the player.

use vstd::prelude::*;
use crate::geometry::{unit_toward, unit_vector, views_of, Point, Pos};
use crate::units::{in_world, ENEMY_SPEED, MAX_SCREEN, WORLD_LIMIT};

verus! {

/// An enemy: where its centre is, and how many hits it can still take.
#[derive(Clone, Copy, Debug, PartialEq, Eq)]
pub struct Enemy {
    pub x: i64,
    pub y: i64,
    pub health: i32,
}

/// The mathematical enemy that an `Enemy` stands for.
pub struct EnemyView {
    pub x: int,
    pub y: int,
    pub health: int,
}

impl View for Enemy {
    type V = EnemyView;

    open spec fn view(&self) -> EnemyView {
        EnemyView { x: self.x as int, y: self.y as int, health: self.health as int }
    }
}

impl EnemyView {
    /// Where the enemy is.
    pub open spec fn pos(self) -> Pos {
        Pos { x: self.x, y: self.y }
    }

    /// Whether the enemy lies in the world.
    pub open spec fn wf(self) -> bool {
        in_world(self.x) && in_world(self.y)
    }

    /// The enemy after walking toward `target` for `dt` microseconds. An
    /// enemy that stands on its target stays where it is.
    pub open spec fn chased(self, target: Pos, dt: int) -> EnemyView {
        match unit_toward(self.pos(), target) {
            Some((ux, uy)) => EnemyView {
                x: self.x + ux * ENEMY_SPEED * dt,
                y: self.y + uy * ENEMY_SPEED * dt,
                health: self.health,
            },
            None => self,
        }
    }
}

/// Whether every enemy of a sequence lies in the world.
pub open spec fn all_enemies_wf(es: Seq<EnemyView>) -> bool {
    forall|i: int| 0 <= i < es.len() ==> (#[trigger] es[i]).wf()
}

/// Every enemy after walking toward `target` for `dt` microseconds.
pub open spec fn chase_all(es: Seq<EnemyView>, target: Pos, dt: int) -> Seq<EnemyView> {
    Seq::new(es.len(), |i: int| es[i].chased(target, dt))
}

/// How far one coordinate moves in `dt` microseconds along a direction
/// component `u`: the step points the way `u` does and is no longer than a
/// full component allows.
fn step(u: i64, dt: u32) -> (r: i64)
    requires
        -1_000_000 <= u <= 1_000_000,
    ensures
        r == u * ENEMY_SPEED * dt,
        u >= 0 ==> 0 <= r <= 1_000_000 * 50 * 0xffff_ffff,
        u <= 0 ==> -1_000_000 * 50 * 0xffff_ffff <= r <= 0,
{
    let t: i64 = dt as i64;
    assert(u >= 0 ==> 0 <= u * ENEMY_SPEED * t <= 1_000_000 * 50 * 0xffff_ffff) by (nonlinear_arith)
        requires
            -1_000_000 <= u <= 1_000_000,
            ENEMY_SPEED == 50,
            0 <= t <= 0xffff_ffff,
    ;
    assert(u <= 0 ==> -1_000_000 * 50 * 0xffff_ffff <= u * ENEMY_SPEED * t <= 0) by (nonlinear_arith)
        requires
            -1_000_000 <= u <= 1_000_000,
            ENEMY_SPEED == 50,
            0 <= t <= 0xffff_ffff,
    ;
    u * ENEMY_SPEED * t
}

impl Enemy {
    /// Whether the enemy lies in the world.
    pub fn is_valid(&self) -> (r: bool)
        ensures
            r == self@.wf(),
    {
        -WORLD_LIMIT <= self.x && self.x <= WORLD_LIMIT && -WORLD_LIMIT <= self.y && self.y
            <= WORLD_LIMIT
    }

    /// The enemy after walking toward `target` for `dt` microseconds.
    pub fn chase(&self, target: Point, dt: u32) -> (r: Enemy)
        requires
            self@.wf(),
            0 <= target.x <= MAX_SCREEN,
            0 <= target.y <= MAX_SCREEN,
        ensures
            r@ == self@.chased(target@, dt as int),
            r@.wf(),
    {
        let here = Point { x: self.x, y: self.y };
        match unit_vector(here, target) {
            Some((ux, uy)) => Enemy {
                x: self.x + step(ux, dt),
                y: self.y + step(uy, dt),
                health: self.health,
            },
            None => *self,
        }
    }
}

/// Whether every enemy lies in the world.
pub fn all_valid(enemies: &Vec<Enemy>) -> (r: bool)
    ensures
        r == all_enemies_wf(views_of(enemies@)),
{
    let mut i: usize = 0;
    while i < enemies.len()
        invariant
            i <= enemies.len(),
            forall|j: int| 0 <= j < i ==> (#[trigger] views_of(enemies@)[j]).wf(),
        decreases enemies.len() - i,
    {
        if !enemies[i].is_valid() {
            assert(!views_of(enemies@)[i as int].wf());
            return false;
        }
        i += 1;
    }
    true
}

/// Lets every enemy walk toward `target` for `dt` microseconds.
pub fn chase_each(enemies: &mut Vec<Enemy>, target: Point, dt: u32)
    requires
        all_enemies_wf(views_of(old(enemies)@)),
        0 <= target.x <= MAX_SCREEN,
        0 <= target.y <= MAX_SCREEN,
    ensures
        views_of(final(enemies)@) == chase_all(views_of(old(enemies)@), target@, dt as int),
        all_enemies_wf(views_of(final(enemies)@)),
{
    let mut i: usize = 0;
    while i < enemies.len()
        invariant
            i <= enemies.len(),
            enemies.len() == old(enemies).len(),
            0 <= target.x <= MAX_SCREEN,
            0 <= target.y <= MAX_SCREEN,
            all_enemies_wf(views_of(enemies@)),
            forall|j: int|
                0 <= j < i ==> (#[trigger] enemies@[j])@ == old(enemies)@[j]@.chased(
                    target@,
                    dt as int,
                ),
            forall|j: int| i <= j < enemies.len() ==> #[trigger] enemies@[j] == old(enemies)@[j],
        decreases enemies.len() - i,
    {
        assert(views_of(enemies@)[i as int].wf());
        let moved = enemies[i].chase(target, dt);
        let ghost before = enemies@;
        enemies.set(i, moved);
        proof {
            assert forall|j: int| 0 <= j < enemies.len() implies (#[trigger] views_of(
                enemies@,
            )[j]).wf() by {
                if j != i {
                    assert(views_of(before)[j].wf());
                }
            }
        }
        i += 1;
    }
}

} // verus!
